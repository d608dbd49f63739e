//! The concurrent dispatcher and the outcome aggregator.
//!
//! The dispatcher is the decision core of the submission engine: it hands
//! records out one at a time, never letting more than the configured worker
//! count be in flight, and collects exactly one outcome per started record.
//! The waiting itself (for a permit, for a response) happens outside; the
//! state machine here decides what may start and accounts for what came
//! back, so the accounting laws hold whatever the transport does.

use vstd::prelude::*;

verus! {

/// What one submission came to: a success, a rejection by the remote
/// service, or a failure to reach it at all.
#[derive(Debug, PartialEq, Clone)]
pub enum DispatchOutcome {
    /// The remote service accepted the submission with this status.
    Success { status: u16, body: String },
    /// The remote service answered with a non-success status, among them
    /// the too-many-requests status; the body is kept for diagnostics.
    RemoteError { status: u16, body: String },
    /// The request never produced a response.
    TransportError { message: String },
}

/// Classifies an HTTP response: any status in the 200 range is a success,
/// every other status, the too-many-requests status included, is a remote
/// error. The record is not retried either way.
pub fn classify_response(status: u16, body: String) -> (o: DispatchOutcome)
    ensures
        200 <= status < 300 ==> o == (DispatchOutcome::Success { status, body }),
        !(200 <= status < 300) ==> o == (DispatchOutcome::RemoteError { status, body }),
{
    if 200 <= status && status < 300 {
        DispatchOutcome::Success { status, body }
    } else {
        DispatchOutcome::RemoteError { status, body }
    }
}

/// Classifies a request that produced no response.
pub fn classify_transport_failure(message: String) -> (o: DispatchOutcome)
    ensures
        o == (DispatchOutcome::TransportError { message }),
{
    DispatchOutcome::TransportError { message }
}

/// How many outcomes of the sequence are successes.
pub open spec fn count_success(outcomes: Seq<DispatchOutcome>) -> nat
    decreases outcomes.len(),
{
    if outcomes.len() == 0 {
        0
    } else {
        count_success(outcomes.drop_last()) + if outcomes.last() is Success {
            1nat
        } else {
            0nat
        }
    }
}

/// How many outcomes of the sequence are remote errors.
pub open spec fn count_remote_errors(outcomes: Seq<DispatchOutcome>) -> nat
    decreases outcomes.len(),
{
    if outcomes.len() == 0 {
        0
    } else {
        count_remote_errors(outcomes.drop_last()) + if outcomes.last() is RemoteError {
            1nat
        } else {
            0nat
        }
    }
}

/// How many outcomes of the sequence are transport errors.
pub open spec fn count_transport_errors(outcomes: Seq<DispatchOutcome>) -> nat
    decreases outcomes.len(),
{
    if outcomes.len() == 0 {
        0
    } else {
        count_transport_errors(outcomes.drop_last()) + if outcomes.last() is TransportError {
            1nat
        } else {
            0nat
        }
    }
}

/// Law: every outcome is exactly one of success, remote error and transport
/// error, so the three counts always add up to the number of outcomes.
pub proof fn lemma_outcome_partition(outcomes: Seq<DispatchOutcome>)
    ensures
        count_success(outcomes) + count_remote_errors(outcomes) + count_transport_errors(
            outcomes,
        ) == outcomes.len(),
    decreases outcomes.len(),
{
    if outcomes.len() > 0 {
        lemma_outcome_partition(outcomes.drop_last());
    }
}

/// The dispatcher: consumes a queue of resolved records under a fixed bound
/// on simultaneously in-flight submissions, and records one outcome per
/// started record.
pub struct Dispatcher<T> {
    pending: Vec<T>,
    concurrency: usize,
    total: usize,
    started: usize,
    in_flight: usize,
    outcomes: Vec<DispatchOutcome>,
}

impl<T> Dispatcher<T> {
    /// The records not yet handed to a worker, in submission order.
    pub closed spec fn spec_pending(self) -> Seq<T> {
        self.pending@
    }

    /// The worker bound.
    pub closed spec fn spec_concurrency(self) -> usize {
        self.concurrency
    }

    /// How many records this dispatch run was created with.
    pub closed spec fn spec_total(self) -> usize {
        self.total
    }

    /// How many records have been handed to a worker so far.
    pub closed spec fn spec_started(self) -> usize {
        self.started
    }

    /// How many submissions are in flight right now.
    pub closed spec fn spec_in_flight(self) -> usize {
        self.in_flight
    }

    /// The outcomes collected so far, in completion order.
    pub closed spec fn spec_outcomes(self) -> Seq<DispatchOutcome> {
        self.outcomes@
    }

    /// The dispatcher's accounting invariant: at least one worker; never
    /// more in flight than workers; everything started is either in flight
    /// or accounted for by an outcome; everything not yet started is still
    /// pending.
    pub open spec fn inv(self) -> bool {
        &&& 1 <= self.spec_concurrency()
        &&& self.spec_in_flight() <= self.spec_concurrency()
        &&& self.spec_started() <= self.spec_total()
        &&& self.spec_pending().len() == self.spec_total() - self.spec_started()
        &&& self.spec_outcomes().len() + self.spec_in_flight() == self.spec_started()
    }

    /// Creates a dispatcher over the resolved records with the given worker
    /// bound.
    pub fn new(records: Vec<T>, concurrency: usize) -> (d: Self)
        requires
            concurrency >= 1,
        ensures
            d.inv(),
            d.spec_pending() == records@,
            d.spec_concurrency() == concurrency,
            d.spec_total() == records@.len(),
            d.spec_started() == 0,
            d.spec_in_flight() == 0,
            d.spec_outcomes() == Seq::<DispatchOutcome>::empty(),
    {
        let total = records.len();
        Dispatcher {
            pending: records,
            concurrency,
            total,
            started: 0,
            in_flight: 0,
            outcomes: Vec::new(),
        }
    }

    /// Whether a new submission may start: a worker slot is free and a
    /// record is still pending.
    pub fn can_start(&self) -> (r: bool)
        requires
            self.inv(),
        ensures
            r <==> (self.spec_in_flight() < self.spec_concurrency() && self.spec_started()
                < self.spec_total()),
    {
        self.in_flight < self.concurrency && self.started < self.total
    }

    /// Hands the next pending record to a worker. The in-flight count grows
    /// by one and stays within the worker bound.
    pub fn start_next(&mut self) -> (t: T)
        requires
            old(self).inv(),
            old(self).spec_in_flight() < old(self).spec_concurrency(),
            old(self).spec_started() < old(self).spec_total(),
        ensures
            final(self).inv(),
            t == old(self).spec_pending().first(),
            final(self).spec_pending() == old(self).spec_pending().drop_first(),
            final(self).spec_started() == old(self).spec_started() + 1,
            final(self).spec_in_flight() == old(self).spec_in_flight() + 1,
            final(self).spec_in_flight() <= final(self).spec_concurrency(),
            final(self).spec_outcomes() == old(self).spec_outcomes(),
            final(self).spec_concurrency() == old(self).spec_concurrency(),
            final(self).spec_total() == old(self).spec_total(),
    {
        let t = self.pending.remove(0);
        self.started = self.started + 1;
        self.in_flight = self.in_flight + 1;
        proof {
            assert(final(self).spec_pending() =~= old(self).spec_pending().drop_first());
        }
        t
    }

    /// Records the outcome of one in-flight submission.
    pub fn complete(&mut self, outcome: DispatchOutcome)
        requires
            old(self).inv(),
            old(self).spec_in_flight() > 0,
        ensures
            final(self).inv(),
            final(self).spec_outcomes() == old(self).spec_outcomes().push(outcome),
            final(self).spec_in_flight() == old(self).spec_in_flight() - 1,
            final(self).spec_started() == old(self).spec_started(),
            final(self).spec_pending() == old(self).spec_pending(),
            final(self).spec_concurrency() == old(self).spec_concurrency(),
            final(self).spec_total() == old(self).spec_total(),
    {
        self.outcomes.push(outcome);
        self.in_flight = self.in_flight - 1;
    }

    /// Whether the run is complete: everything started and nothing left in
    /// flight. A complete run holds exactly one outcome per record, so no
    /// record was dropped silently.
    pub fn is_done(&self) -> (r: bool)
        requires
            self.inv(),
        ensures
            r <==> (self.spec_started() == self.spec_total() && self.spec_in_flight() == 0),
            r ==> self.spec_outcomes().len() == self.spec_total(),
    {
        self.started == self.total && self.in_flight == 0
    }

    /// The outcomes collected so far.
    pub fn outcomes(&self) -> (r: &Vec<DispatchOutcome>)
        ensures
            r@ == self.spec_outcomes(),
    {
        &self.outcomes
    }

    /// The current in-flight count.
    pub fn in_flight(&self) -> (r: usize)
        ensures
            r == self.spec_in_flight(),
    {
        self.in_flight
    }

    /// The worker bound.
    pub fn concurrency(&self) -> (r: usize)
        ensures
            r == self.spec_concurrency(),
    {
        self.concurrency
    }
}

/// Law: in every reachable dispatcher state the number of in-flight
/// submissions is bounded by the configured worker count.
pub proof fn lemma_bounded_in_flight<T>(d: Dispatcher<T>)
    requires
        d.inv(),
    ensures
        d.spec_in_flight() <= d.spec_concurrency(),
{
}

/// The final tally of a run.
#[derive(Debug, PartialEq, Clone)]
pub struct Summary {
    pub succeeded: usize,
    pub skipped: usize,
    pub remote_errors: usize,
    pub transport_errors: usize,
}

/// Folds the outcomes of a run, plus the count of records the resolver
/// skipped before dispatch, into a summary. The fold is order-independent:
/// each count says exactly how many outcomes of its kind the sequence
/// holds, and the four counts add up to the records skipped plus the
/// records submitted.
pub fn aggregate(outcomes: &Vec<DispatchOutcome>, skipped: usize) -> (s: Summary)
    ensures
        s.succeeded == count_success(outcomes@),
        s.remote_errors == count_remote_errors(outcomes@),
        s.transport_errors == count_transport_errors(outcomes@),
        s.skipped == skipped,
        s.succeeded + s.skipped + s.remote_errors + s.transport_errors == outcomes@.len()
            + skipped,
{
    let mut succeeded: usize = 0;
    let mut remote_errors: usize = 0;
    let mut transport_errors: usize = 0;
    let n = outcomes.len();
    for i in 0..n
        invariant
            n == outcomes@.len(),
            succeeded == count_success(outcomes@.take(i as int)),
            remote_errors == count_remote_errors(outcomes@.take(i as int)),
            transport_errors == count_transport_errors(outcomes@.take(i as int)),
            succeeded + remote_errors + transport_errors == i,
    {
        proof {
            assert(outcomes@.take(i + 1).drop_last() =~= outcomes@.take(i as int));
            assert(outcomes@.take(i + 1).last() == outcomes@[i as int]);
        }
        match &outcomes[i] {
            DispatchOutcome::Success { .. } => {
                succeeded = succeeded + 1;
            },
            DispatchOutcome::RemoteError { .. } => {
                remote_errors = remote_errors + 1;
            },
            DispatchOutcome::TransportError { .. } => {
                transport_errors = transport_errors + 1;
            },
        }
    }
    proof {
        assert(outcomes@.take(n as int) =~= outcomes@);
        lemma_outcome_partition(outcomes@);
    }
    Summary { succeeded, skipped, remote_errors, transport_errors }
}

} // verus!
