use vtex_dataload::limiter::TokenBucket;

#[test]
fn burst_allows_rate_grants_then_blocks() {
    // A fresh bucket at two permits per second grants two requests at time
    // zero and denies the third.
    let mut bucket = TokenBucket::new(2, 0);
    assert!(bucket.try_acquire(0));
    assert!(bucket.try_acquire(0));
    assert!(!bucket.try_acquire(0));
}

#[test]
fn denied_request_is_granted_at_next_ready_time() {
    let mut bucket = TokenBucket::new(2, 0);
    assert!(bucket.try_acquire(0));
    assert!(bucket.try_acquire(0));
    assert!(!bucket.try_acquire(0));
    let ready = bucket.next_ready_micros();
    assert!(ready > 0);
    assert!(bucket.try_acquire(ready));
}

#[test]
fn six_instant_records_at_rate_two_take_at_least_two_seconds() {
    // Six records with a no-op transport at two permits per second: the
    // last permit cannot come before (6 - 2) / 2 = 2 seconds.
    let rate: u32 = 2;
    let n: usize = 6;
    let mut bucket = TokenBucket::new(rate, 0);
    let interval = bucket.interval_micros();
    let mut now: u64 = 0;
    let mut granted: usize = 0;
    let mut last_grant: u64 = 0;
    while granted < n {
        if bucket.try_acquire(now) {
            granted += 1;
            last_grant = now;
        } else {
            now = bucket.next_ready_micros();
        }
    }
    assert_eq!(interval, 500_000);
    assert!(last_grant >= (n as u64 - rate as u64) * interval);
    assert!(last_grant >= 2_000_000);
}

#[test]
fn rate_forty_run_paces_a_large_batch() {
    // The default-like rate of forty permits per second over two hundred
    // records: the run cannot finish before four seconds of modelled time.
    let rate: u32 = 40;
    let n: u64 = 200;
    let mut bucket = TokenBucket::new(rate, 0);
    let interval = bucket.interval_micros();
    let mut now: u64 = 0;
    let mut granted: u64 = 0;
    let mut last_grant: u64 = 0;
    while granted < n {
        if bucket.try_acquire(now) {
            granted += 1;
            last_grant = now;
        } else {
            now = bucket.next_ready_micros();
        }
    }
    assert!(last_grant >= (n - rate as u64) * interval);
}
