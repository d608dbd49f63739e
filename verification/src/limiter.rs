//! The rate limiter: a token bucket holding `rate` permits refilled at
//! `rate` permits per second, shared by every submission task.
//!
//! The bucket keeps one number, the theoretical arrival time of the next
//! submission in microseconds. A permit is granted when that time has come
//! within the bucket's burst tolerance of `now`; each grant pushes the
//! arrival time one emission interval further. From this the throughput
//! law follows: `n` grants from a fresh bucket cannot finish earlier than
//! `(n - rate)` emission intervals after the start.

use vstd::math::max;
use vstd::prelude::*;

verus! {

/// One second, in the microsecond unit the bucket counts in.
pub const MICROS_PER_SECOND: u64 = 1_000_000;

/// The time between two grants at a steady rate, in microseconds.
pub open spec fn emission_interval(rate: u32) -> int {
    MICROS_PER_SECOND as int / rate as int
}

/// How far ahead of the theoretical arrival time a grant may come: the
/// burst allowance of a bucket that holds `rate` permits.
pub open spec fn burst_tolerance(rate: u32) -> int {
    (rate - 1) * emission_interval(rate)
}

/// A token bucket limiting submissions to `rate` permits per second.
pub struct TokenBucket {
    rate: u32,
    tat: u64,
}

impl TokenBucket {
    /// The configured rate, in permits per second.
    pub closed spec fn spec_rate(self) -> u32 {
        self.rate
    }

    /// The theoretical arrival time of the next submission, in microseconds.
    pub closed spec fn spec_tat(self) -> u64 {
        self.tat
    }

    /// A usable bucket: at least one permit per second, and at most one per
    /// microsecond.
    pub open spec fn wf(self) -> bool {
        1 <= self.spec_rate() <= MICROS_PER_SECOND
    }

    /// Creates a fresh bucket whose first permit is available at once.
    pub fn new(rate: u32, now_micros: u64) -> (b: TokenBucket)
        requires
            1 <= rate <= MICROS_PER_SECOND,
        ensures
            b.wf(),
            b.spec_rate() == rate,
            b.spec_tat() == now_micros,
    {
        TokenBucket { rate, tat: now_micros }
    }

    /// The emission interval of this bucket, in microseconds.
    pub fn interval_micros(&self) -> (t: u64)
        requires
            self.wf(),
        ensures
            t as int == emission_interval(self.spec_rate()),
    {
        MICROS_PER_SECOND / (self.rate as u64)
    }

    /// Asks for one permit at time `now_micros`. The permit is granted
    /// exactly when the theoretical arrival time lies within the burst
    /// tolerance of `now`; a grant moves the arrival time one emission
    /// interval further, measured from the later of `now` and the old
    /// arrival time. A denied request changes nothing.
    pub fn try_acquire(&mut self, now_micros: u64) -> (granted: bool)
        requires
            old(self).wf(),
            now_micros < u64::MAX - 2 * MICROS_PER_SECOND,
            old(self).spec_tat() < u64::MAX - 2 * MICROS_PER_SECOND,
        ensures
            final(self).wf(),
            final(self).spec_rate() == old(self).spec_rate(),
            granted <==> old(self).spec_tat() <= now_micros + burst_tolerance(
                old(self).spec_rate(),
            ),
            granted ==> final(self).spec_tat() as int == max(
                now_micros as int,
                old(self).spec_tat() as int,
            ) + emission_interval(old(self).spec_rate()),
            !granted ==> final(self).spec_tat() == old(self).spec_tat(),
    {
        let interval: u64 = MICROS_PER_SECOND / (self.rate as u64);
        let tolerance: u64 = tolerance_micros(self.rate);
        if self.tat <= now_micros + tolerance {
            let base = if now_micros > self.tat {
                now_micros
            } else {
                self.tat
            };
            self.tat = base + interval;
            true
        } else {
            false
        }
    }

    /// The earliest time at which the next request will be granted.
    pub fn next_ready_micros(&self) -> (t: u64)
        requires
            self.wf(),
            self.spec_tat() < u64::MAX - 2 * MICROS_PER_SECOND,
        ensures
            t as int == max(self.spec_tat() as int - burst_tolerance(self.spec_rate()), 0),
            self.spec_tat() <= t + burst_tolerance(self.spec_rate()),
    {
        let tolerance: u64 = tolerance_micros(self.rate);
        if self.tat >= tolerance {
            self.tat - tolerance
        } else {
            0
        }
    }
}

fn tolerance_micros(rate: u32) -> (tol: u64)
    requires
        1 <= rate <= MICROS_PER_SECOND,
    ensures
        tol as int == burst_tolerance(rate),
        tol <= MICROS_PER_SECOND,
{
    let interval: u64 = MICROS_PER_SECOND / (rate as u64);
    proof {
        assert(interval as int * rate as int <= MICROS_PER_SECOND as int && interval as int
            >= 0) by (nonlinear_arith)
            requires
                1 <= rate as int <= MICROS_PER_SECOND as int,
                interval as int == MICROS_PER_SECOND as int / rate as int,
        ;
        assert((rate - 1) as int * interval as int <= MICROS_PER_SECOND as int)
            by (nonlinear_arith)
            requires
                1 <= rate as int,
                interval as int >= 0,
                interval as int * rate as int <= MICROS_PER_SECOND as int,
        ;
    }
    let tol: u64 = ((rate - 1) as u64) * interval;
    tol
}

/// Whether a bucket with arrival time `tat` grants a permit at each time of
/// the sequence in turn: the request at `times[k]` finds the arrival time
/// that the first `k` grants produced within the burst tolerance.
pub open spec fn admitted_trace(rate: u32, tat: int, times: Seq<int>) -> bool
    decreases times.len(),
{
    times.len() == 0 || {
        &&& tat <= times.first() + burst_tolerance(rate)
        &&& admitted_trace(
            rate,
            max(times.first(), tat) + emission_interval(rate),
            times.drop_first(),
        )
    }
}

proof fn lemma_trace_last_bound(rate: u32, tat: int, times: Seq<int>)
    requires
        1 <= rate <= MICROS_PER_SECOND as int,
        times.len() >= 1,
        admitted_trace(rate, tat, times),
    ensures
        times.last() >= tat - burst_tolerance(rate) + (times.len() - 1) * emission_interval(
            rate,
        ),
    decreases times.len(),
{
    let t = emission_interval(rate);
    if times.len() == 1 {
        assert(times.last() == times.first());
    } else {
        let rest = times.drop_first();
        let tat2 = max(times.first(), tat) + t;
        lemma_trace_last_bound(rate, tat2, rest);
        assert(rest.last() == times.last());
        assert(rest.len() == times.len() - 1);
        assert(tat2 >= tat + t);
        assert(times.last() >= tat + t - burst_tolerance(rate) + (times.len() - 2) * t);
        assert((times.len() - 2) * t + t == (times.len() - 1) * t) by (nonlinear_arith);
    }
}

/// The arrival time that granting a permit at each time of the sequence in
/// turn leaves behind.
pub open spec fn run_tat(rate: u32, tat: int, times: Seq<int>) -> int
    decreases times.len(),
{
    if times.len() == 0 {
        tat
    } else {
        run_tat(rate, max(times.first(), tat) + emission_interval(rate), times.drop_first())
    }
}

/// Law: a grant extends an admitted trace. When the bucket's arrival time
/// after an admitted trace lies within the burst tolerance of `t`, the
/// trace extended by a grant at `t` is admitted too, and the arrival time
/// moves exactly as `try_acquire` moves it. A run of granted requests is
/// therefore an admitted trace, and the throughput bound applies to it.
pub proof fn lemma_grant_extends_trace(rate: u32, tat0: int, times: Seq<int>, t: int)
    requires
        admitted_trace(rate, tat0, times),
        run_tat(rate, tat0, times) <= t + burst_tolerance(rate),
    ensures
        admitted_trace(rate, tat0, times.push(t)),
        run_tat(rate, tat0, times.push(t)) == max(t, run_tat(rate, tat0, times))
            + emission_interval(rate),
    decreases times.len(),
{
    if times.len() == 0 {
        assert(times.push(t).first() == t);
        assert(times.push(t).drop_first() =~= Seq::<int>::empty());
        let tat1 = max(t, tat0) + emission_interval(rate);
        assert(admitted_trace(rate, tat1, Seq::<int>::empty()));
        assert(run_tat(rate, tat1, Seq::<int>::empty()) == tat1);
    } else {
        lemma_grant_extends_trace(
            rate,
            max(times.first(), tat0) + emission_interval(rate),
            times.drop_first(),
            t,
        );
        assert(times.push(t).first() == times.first());
        assert(times.push(t).drop_first() =~= times.drop_first().push(t));
    }
}

/// Law: a bucket of `rate` permits per second with arrival time `start`
/// cannot grant its `n`-th permit earlier than `(n - rate)` emission
/// intervals after `start`, whatever the request times are. With a no-op
/// transport, a dispatch of `n` records therefore takes at least
/// `(n - rate) / rate` seconds of modelled time.
pub proof fn lemma_throughput_bound(rate: u32, start: int, times: Seq<int>)
    requires
        1 <= rate <= MICROS_PER_SECOND as int,
        times.len() >= 1,
        admitted_trace(rate, start, times),
    ensures
        times.last() >= start + (times.len() - rate) * emission_interval(rate),
{
    let t = emission_interval(rate);
    lemma_trace_last_bound(rate, start, times);
    assert(burst_tolerance(rate) == (rate - 1) * t);
    assert((times.len() - 1) * t - (rate - 1) * t == (times.len() - rate) * t)
        by (nonlinear_arith);
}

} // verus!
