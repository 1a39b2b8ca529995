//! The lifecycle tracker: the state of one submitted transaction, driven by
//! the chain's status updates in arrival order.
use vstd::prelude::*;

verus! {

/// What an event of the block's log says.
#[derive(Debug, Clone)]
pub enum EventData {
    /// The extrinsic failed in the runtime, with the runtime's error code.
    ExtrinsicFailed { code: u32, description: String },
    /// Any other event, by pallet and event name.
    Emitted { pallet: String, name: String },
}

/// One event of a block's log, with the index of the extrinsic that emitted
/// it (none for the block's own phases).
#[derive(Debug, Clone)]
pub struct ChainEvent {
    pub extrinsic_index: Option<u32>,
    pub data: EventData,
}

/// A status update of the chain for the watched transaction.
#[derive(Debug, Clone)]
pub enum Status {
    /// Validated or broadcast: still waiting for a block.
    Pending,
    /// Included in a block, as the extrinsic with this index.
    InBlock { extrinsic_index: u32 },
    /// The block that holds it is final; `events` is that block's event log.
    Finalized { extrinsic_index: u32, events: Vec<ChainEvent> },
    /// The pool dropped it.
    Dropped,
    /// The chain judged it invalid.
    Invalid { reason: String },
    /// The node refused the signed envelope (bad nonce, too little balance).
    Rejected { reason: String },
    /// The status subscription broke before an outcome was known.
    ConnectionLost,
}

/// How a transaction ended.
#[derive(Debug, Clone)]
pub enum Outcome {
    /// Final, without failure; the events that its extrinsic emitted.
    FinalizedSuccess { events: Vec<ChainEvent> },
    /// Final, but the runtime rejected the call.
    FinalizedWithRuntimeError { code: u32, description: String },
    /// The node refused the signed envelope.
    SignatureRejected { reason: String },
    Dropped,
    Invalid { reason: String },
    ConnectionLost,
}

/// Where a transaction stands.
#[derive(Debug, Clone)]
pub enum TrackState {
    Submitted,
    InBlock { extrinsic_index: u32 },
    Resolved(Outcome),
}

/// The tracker of one submitted transaction.
#[derive(Debug, Clone)]
pub struct Tracker {
    pub state: TrackState,
}

/// The model of an outcome.
pub enum OutcomeView {
    FinalizedSuccess(Seq<ChainEvent>),
    FinalizedWithRuntimeError(u32, Seq<char>),
    SignatureRejected(Seq<char>),
    Dropped,
    Invalid(Seq<char>),
    ConnectionLost,
}

/// The model of a tracker's state.
pub enum TrackView {
    Submitted,
    InBlock(u32),
    Resolved(OutcomeView),
}

impl View for Outcome {
    type V = OutcomeView;

    open spec fn view(&self) -> OutcomeView {
        match self {
            Outcome::FinalizedSuccess { events } => OutcomeView::FinalizedSuccess(events@),
            Outcome::FinalizedWithRuntimeError { code, description } =>
                OutcomeView::FinalizedWithRuntimeError(*code, description@),
            Outcome::SignatureRejected { reason } => OutcomeView::SignatureRejected(reason@),
            Outcome::Dropped => OutcomeView::Dropped,
            Outcome::Invalid { reason } => OutcomeView::Invalid(reason@),
            Outcome::ConnectionLost => OutcomeView::ConnectionLost,
        }
    }
}

impl View for Tracker {
    type V = TrackView;

    open spec fn view(&self) -> TrackView {
        match self.state {
            TrackState::Submitted => TrackView::Submitted,
            TrackState::InBlock { extrinsic_index } => TrackView::InBlock(extrinsic_index),
            TrackState::Resolved(o) => TrackView::Resolved(o@),
        }
    }
}

/// `e` reports that extrinsic `i` failed.
pub open spec fn failure_for(e: ChainEvent, i: u32) -> bool {
    e.extrinsic_index == Some(i) && e.data is ExtrinsicFailed
}

/// The index of the first failure of extrinsic `i` among the first `n` events.
pub open spec fn first_failure(evs: Seq<ChainEvent>, i: u32, n: nat) -> Option<int>
    decreases n,
{
    if n == 0 {
        None
    } else {
        match first_failure(evs, i, (n - 1) as nat) {
            Some(k) => Some(k),
            None => if failure_for(evs[n - 1], i) {
                Some(n - 1)
            } else {
                None
            },
        }
    }
}

/// The events of extrinsic `i` among the first `n`, in order.
pub open spec fn events_of(evs: Seq<ChainEvent>, i: u32, n: nat) -> Seq<ChainEvent>
    decreases n,
{
    if n == 0 {
        Seq::empty()
    } else if evs[n - 1].extrinsic_index == Some(i) {
        events_of(evs, i, (n - 1) as nat).push(evs[n - 1])
    } else {
        events_of(evs, i, (n - 1) as nat)
    }
}

/// The outcome of extrinsic `i` of a final block with event log `evs`: the
/// runtime's error if it failed, else its own events.
pub open spec fn resolution(i: u32, evs: Seq<ChainEvent>) -> OutcomeView {
    match first_failure(evs, i, evs.len()) {
        Some(k) => match evs[k].data {
            EventData::ExtrinsicFailed { code, description } =>
                OutcomeView::FinalizedWithRuntimeError(code, description@),
            _ => OutcomeView::FinalizedSuccess(events_of(evs, i, evs.len())),
        },
        None => OutcomeView::FinalizedSuccess(events_of(evs, i, evs.len())),
    }
}

/// The state after status `s` in state `st`. An outcome, once reached, never
/// changes; before it, inclusion in a block may move to another block.
pub open spec fn next(st: TrackView, s: Status) -> TrackView {
    match st {
        TrackView::Resolved(_) => st,
        _ => match s {
            Status::Pending => st,
            Status::InBlock { extrinsic_index } => TrackView::InBlock(extrinsic_index),
            Status::Finalized { extrinsic_index, events } => TrackView::Resolved(
                resolution(extrinsic_index, events@),
            ),
            Status::Dropped => TrackView::Resolved(OutcomeView::Dropped),
            Status::Invalid { reason } => TrackView::Resolved(OutcomeView::Invalid(reason@)),
            Status::Rejected { reason } => TrackView::Resolved(
                OutcomeView::SignatureRejected(reason@),
            ),
            Status::ConnectionLost => TrackView::Resolved(OutcomeView::ConnectionLost),
        },
    }
}

/// The state after the statuses `ss`, in order, from state `st`.
pub open spec fn run(st: TrackView, ss: Seq<Status>) -> TrackView
    decreases ss.len(),
{
    if ss.len() == 0 {
        st
    } else {
        next(run(st, ss.drop_last()), ss.last())
    }
}

impl ChainEvent {
    /// A copy of the event.
    pub fn copied(&self) -> (r: ChainEvent)
        ensures
            r == *self,
    {
        let data = match &self.data {
            EventData::ExtrinsicFailed { code, description } => EventData::ExtrinsicFailed {
                code: *code,
                description: description.clone(),
            },
            EventData::Emitted { pallet, name } => EventData::Emitted {
                pallet: pallet.clone(),
                name: name.clone(),
            },
        };
        ChainEvent { extrinsic_index: self.extrinsic_index, data }
    }

    /// Tells whether the event was emitted by extrinsic `i`.
    pub fn belongs_to(&self, i: u32) -> (r: bool)
        ensures
            r == (self.extrinsic_index == Some(i)),
    {
        match self.extrinsic_index {
            Some(x) => x == i,
            None => false,
        }
    }
}

/// Once a failure is found among the first `n` events, looking further finds
/// the same one.
proof fn lemma_first_failure_stays(evs: Seq<ChainEvent>, i: u32, n: nat, m: nat)
    requires
        n <= m,
        first_failure(evs, i, n) is Some,
    ensures
        first_failure(evs, i, m) == first_failure(evs, i, n),
    decreases m - n,
{
    if n < m {
        lemma_first_failure_stays(evs, i, n, (m - 1) as nat);
    }
}

/// The outcome of extrinsic `i` of a final block whose event log is `events`.
pub fn resolve(i: u32, events: &Vec<ChainEvent>) -> (o: Outcome)
    ensures
        o@ == resolution(i, events@),
{
    let n = events.len();
    let mut own: Vec<ChainEvent> = Vec::new();
    let mut k: usize = 0;
    while k < n
        invariant
            n == events@.len(),
            k <= n,
            first_failure(events@, i, k as nat) is None,
            own@ == events_of(events@, i, k as nat),
        decreases n - k,
    {
        let e = &events[k];
        if e.belongs_to(i) {
            match &e.data {
                EventData::ExtrinsicFailed { code, description } => {
                    proof {
                        lemma_first_failure_stays(events@, i, (k + 1) as nat, n as nat);
                    }
                    return Outcome::FinalizedWithRuntimeError {
                        code: *code,
                        description: description.clone(),
                    };
                },
                EventData::Emitted { .. } => {
                    own.push(e.copied());
                },
            }
        }
        k += 1;
    }
    Outcome::FinalizedSuccess { events: own }
}

impl Tracker {
    /// A tracker for a transaction just handed to the node.
    pub fn new() -> (t: Tracker)
        ensures
            t@ == TrackView::Submitted,
    {
        Tracker { state: TrackState::Submitted }
    }

    /// Takes the next status update, in arrival order.
    pub fn on_status(&mut self, s: Status)
        ensures
            final(self)@ == next(old(self)@, s),
    {
        if let TrackState::Resolved(_) = &self.state {
            return;
        }
        match s {
            Status::Pending => {},
            Status::InBlock { extrinsic_index } => {
                self.state = TrackState::InBlock { extrinsic_index };
            },
            Status::Finalized { extrinsic_index, events } => {
                self.state = TrackState::Resolved(resolve(extrinsic_index, &events));
            },
            Status::Dropped => {
                self.state = TrackState::Resolved(Outcome::Dropped);
            },
            Status::Invalid { reason } => {
                self.state = TrackState::Resolved(Outcome::Invalid { reason });
            },
            Status::Rejected { reason } => {
                self.state = TrackState::Resolved(Outcome::SignatureRejected { reason });
            },
            Status::ConnectionLost => {
                self.state = TrackState::Resolved(Outcome::ConnectionLost);
            },
        }
    }

    /// Tells whether the transaction has an outcome.
    pub fn is_terminal(&self) -> (r: bool)
        ensures
            r == (self@ is Resolved),
    {
        match &self.state {
            TrackState::Resolved(_) => true,
            _ => false,
        }
    }

    /// The outcome, once there is one.
    pub fn outcome(&self) -> (r: Option<&Outcome>)
        ensures
            match self@ {
                TrackView::Resolved(o) => r matches Some(x) && x@ == o,
                _ => r is None,
            },
    {
        match &self.state {
            TrackState::Resolved(o) => Some(o),
            _ => None,
        }
    }
}

/// Running `a` and then `b` is running `a + b`.
proof fn lemma_run_append(st: TrackView, a: Seq<Status>, b: Seq<Status>)
    ensures
        run(st, a + b) == run(run(st, a), b),
    decreases b.len(),
{
    if b.len() == 0 {
        assert(a + b =~= a);
    } else {
        lemma_run_append(st, a, b.drop_last());
        assert((a + b).drop_last() =~= a + b.drop_last());
        assert((a + b).last() == b.last());
    }
}

/// An outcome, once reached, stays whatever statuses follow: a stale
/// inclusion after finality changes nothing.
pub proof fn lemma_resolved_stays(st: TrackView, ss: Seq<Status>)
    requires
        st is Resolved,
    ensures
        run(st, ss) == st,
    decreases ss.len(),
{
    if ss.len() > 0 {
        lemma_resolved_stays(st, ss.drop_last());
    }
}

/// Statuses that only wait or report inclusion leave a new transaction
/// unresolved.
proof fn lemma_pending_unresolved(pre: Seq<Status>)
    requires
        forall|k: int| 0 <= k < pre.len() ==> #[trigger] pre[k] is Pending || pre[k] is InBlock,
    ensures
        !(run(TrackView::Submitted, pre) is Resolved),
    decreases pre.len(),
{
    if pre.len() > 0 {
        lemma_pending_unresolved(pre.drop_last());
        assert(pre.last() == pre[pre.len() - 1]);
    }
}

/// A transaction that is included in blocks any number of times and then
/// finalized resolves to the outcome of that final block, and keeps it
/// through any later statuses, stale inclusions among them.
pub proof fn lemma_finalized_wins(pre: Seq<Status>, i: u32, events: Vec<ChainEvent>, post: Seq<Status>)
    requires
        forall|k: int| 0 <= k < pre.len() ==> #[trigger] pre[k] is Pending || pre[k] is InBlock,
    ensures
        run(
            TrackView::Submitted,
            pre + seq![Status::Finalized { extrinsic_index: i, events }] + post,
        ) == TrackView::Resolved(resolution(i, events@)),
{
    let f = seq![Status::Finalized { extrinsic_index: i, events }];
    lemma_pending_unresolved(pre);
    assert((pre + f).drop_last() =~= pre);
    assert((pre + f).last() == f[0]);
    lemma_run_append(TrackView::Submitted, pre + f, post);
    lemma_resolved_stays(run(TrackView::Submitted, pre + f), post);
}

/// A final block that reports a failure of the extrinsic never resolves it
/// to success.
pub proof fn lemma_failure_not_success(i: u32, evs: Seq<ChainEvent>, k: int)
    requires
        0 <= k < evs.len(),
        failure_for(evs[k], i),
    ensures
        resolution(i, evs) is FinalizedWithRuntimeError,
{
    lemma_failure_found(evs, i, evs.len(), k);
    lemma_first_failure_is_failure(evs, i, evs.len());
}

/// A failure among the first `n` events is found.
proof fn lemma_failure_found(evs: Seq<ChainEvent>, i: u32, n: nat, k: int)
    requires
        n <= evs.len(),
        0 <= k < n,
        failure_for(evs[k], i),
    ensures
        first_failure(evs, i, n) is Some,
    decreases n,
{
    if k < n - 1 {
        lemma_failure_found(evs, i, (n - 1) as nat, k);
    }
}

/// What is found is a failure of the extrinsic.
proof fn lemma_first_failure_is_failure(evs: Seq<ChainEvent>, i: u32, n: nat)
    requires
        n <= evs.len(),
    ensures
        first_failure(evs, i, n) matches Some(j) ==> 0 <= j < n && failure_for(evs[j], i),
    decreases n,
{
    if n > 0 {
        lemma_first_failure_is_failure(evs, i, (n - 1) as nat);
    }
}

} // verus!
