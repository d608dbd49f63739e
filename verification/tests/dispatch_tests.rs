use vtex_dataload::dispatch::{aggregate, classify_response, classify_transport_failure,
    DispatchOutcome, Dispatcher};

#[test]
fn successes_cover_the_whole_two_hundred_range() {
    match classify_response(200, "ok".to_string()) {
        DispatchOutcome::Success { status, body } => {
            assert_eq!(status, 200);
            assert_eq!(body, "ok".to_string());
        },
        other => panic!("unexpected outcome: {:?}", other),
    }
    assert!(matches!(
        classify_response(299, "ok".to_string()),
        DispatchOutcome::Success { .. }
    ));
    assert!(matches!(
        classify_response(404, "missing".to_string()),
        DispatchOutcome::RemoteError { status: 404, .. }
    ));
    assert!(matches!(
        classify_transport_failure("connection refused".to_string()),
        DispatchOutcome::TransportError { .. }
    ));
}

#[test]
fn rate_limited_submission_is_a_remote_error_and_dispatch_continues() {
    // The remote answers the first submission with the too-many-requests
    // status; the outcome is a remote error with status 429 and the next
    // record is still submitted, without a retry of the first.
    let records = vec!["r1".to_string(), "r2".to_string()];
    let mut dispatcher = Dispatcher::new(records, 1);

    let first = dispatcher.start_next();
    assert_eq!(first, "r1".to_string());
    dispatcher.complete(classify_response(429, "slow down".to_string()));

    assert!(dispatcher.can_start());
    let second = dispatcher.start_next();
    assert_eq!(second, "r2".to_string());
    dispatcher.complete(classify_response(200, "ok".to_string()));

    assert!(dispatcher.is_done());
    let outcomes = dispatcher.outcomes();
    assert_eq!(outcomes.len(), 2);
    match &outcomes[0] {
        DispatchOutcome::RemoteError { status, body } => {
            assert_eq!(*status, 429);
            assert_eq!(body, "slow down");
        },
        other => panic!("unexpected outcome: {:?}", other),
    }
    assert!(matches!(&outcomes[1], DispatchOutcome::Success { status: 200, .. }));
}

#[test]
fn in_flight_submissions_never_exceed_the_worker_bound() {
    // An instrumented run over seven records with a bound of three: the
    // observed in-flight count never passes three, and the bound is reached.
    let records: Vec<u32> = (0..7).collect();
    let mut dispatcher = Dispatcher::new(records, 3);
    let mut max_in_flight: usize = 0;
    let mut completed: usize = 0;
    while !dispatcher.is_done() {
        while dispatcher.can_start() {
            let _record = dispatcher.start_next();
            assert!(dispatcher.in_flight() <= dispatcher.concurrency());
            if dispatcher.in_flight() > max_in_flight {
                max_in_flight = dispatcher.in_flight();
            }
        }
        dispatcher.complete(classify_response(200, "ok".to_string()));
        completed += 1;
    }
    assert_eq!(max_in_flight, 3);
    assert_eq!(completed, 7);
    assert_eq!(dispatcher.outcomes().len(), 7);
}

#[test]
fn every_submitted_record_gets_exactly_one_outcome() {
    let records: Vec<u32> = (0..5).collect();
    let mut dispatcher = Dispatcher::new(records, 2);
    let mut status: u16 = 200;
    while !dispatcher.is_done() {
        if dispatcher.can_start() {
            let _record = dispatcher.start_next();
        } else {
            dispatcher.complete(classify_response(status, String::new()));
            status += 100;
        }
        if dispatcher.in_flight() > 0 && !dispatcher.can_start() && !dispatcher.is_done() {
            dispatcher.complete(classify_response(status, String::new()));
            status += 100;
        }
    }
    assert_eq!(dispatcher.outcomes().len(), 5);
    let summary = aggregate(dispatcher.outcomes(), 0);
    assert_eq!(
        summary.succeeded + summary.remote_errors + summary.transport_errors,
        5
    );
}

#[test]
fn aggregate_of_empty_run_is_all_zero() {
    let outcomes: Vec<DispatchOutcome> = Vec::new();
    let summary = aggregate(&outcomes, 0);
    assert_eq!(summary.succeeded, 0);
    assert_eq!(summary.skipped, 0);
    assert_eq!(summary.remote_errors, 0);
    assert_eq!(summary.transport_errors, 0);
}
