//! The worker: a state machine that walks one chunk of the credential space.
//!
//! The worker decides; its driver acts. The driver asks the worker for its
//! next [`WorkerAction`], performs it (a poll of the stop channel, a probe, a
//! send) and hands the outcome back as a [`WorkerEvent`]. The inline path
//! drives the same machine without channels: every poll finds nothing and
//! every send succeeds.

use vstd::prelude::*;
use crate::types::{
    CredentialPair, KeyDataView, OutcomeView, PairView, PrivateKeyData, ProbeOutcome,
    ThreadMessage,
};
use crate::space::pairs;

verus! {

/// What a worker is about to do.
#[derive(Debug)]
pub enum WorkerPhase {
    /// Check the stop channel before the next probe.
    Polling,
    /// Probe the pair under the cursor.
    Probing,
    /// Send the success payload on the result channel.
    Publishing(PrivateKeyData),
    /// Send `Data` on the control channel, the payload being out already.
    Announcing,
    /// Send `Waiting` on the control channel after a failed probe.
    Reporting,
    /// Nothing more: the chunk is exhausted, a success was reported, a stop
    /// was seen or a receiver is gone.
    Finished,
}

/// Mathematical value of a [`WorkerPhase`].
pub ghost enum PhaseView {
    Polling,
    Probing,
    Publishing(KeyDataView),
    Announcing,
    Reporting,
    Finished,
}

impl View for WorkerPhase {
    type V = PhaseView;

    open spec fn view(&self) -> PhaseView {
        match self {
            WorkerPhase::Polling => PhaseView::Polling,
            WorkerPhase::Probing => PhaseView::Probing,
            WorkerPhase::Publishing(data) => PhaseView::Publishing(data@),
            WorkerPhase::Announcing => PhaseView::Announcing,
            WorkerPhase::Reporting => PhaseView::Reporting,
            WorkerPhase::Finished => PhaseView::Finished,
        }
    }
}

/// What the driver reports back to the worker.
#[derive(Debug)]
pub enum WorkerEvent {
    /// The stop channel was checked; `None` when nothing was waiting there.
    Polled(Option<ThreadMessage>),
    /// The probe of the pair under the cursor ended.
    Probed(ProbeOutcome),
    /// A send was attempted; `false` when the receiver is gone.
    Sent(bool),
}

/// Mathematical value of a [`WorkerEvent`].
pub ghost enum EventView {
    Polled(Option<ThreadMessage>),
    Probed(OutcomeView),
    Sent(bool),
}

impl View for WorkerEvent {
    type V = EventView;

    open spec fn view(&self) -> EventView {
        match self {
            WorkerEvent::Polled(message) => EventView::Polled(*message),
            WorkerEvent::Probed(outcome) => EventView::Probed(outcome@),
            WorkerEvent::Sent(delivered) => EventView::Sent(*delivered),
        }
    }
}

/// What the worker asks its driver to do.
#[derive(Debug)]
pub enum WorkerAction {
    /// Check the stop channel without blocking for long.
    PollStop,
    /// Derive a key from the pair's password and try to authenticate.
    Probe(CredentialPair),
    /// Send the payload on the result channel.
    SendResult(PrivateKeyData),
    /// Send the signal on the control channel.
    SendControl(ThreadMessage),
    /// Return: the worker is finished.
    Exit,
}

/// Mathematical value of a [`WorkerAction`].
pub ghost enum ActionView {
    PollStop,
    Probe(PairView),
    SendResult(KeyDataView),
    SendControl(ThreadMessage),
    Exit,
}

impl View for WorkerAction {
    type V = ActionView;

    open spec fn view(&self) -> ActionView {
        match self {
            WorkerAction::PollStop => ActionView::PollStop,
            WorkerAction::Probe(pair) => ActionView::Probe(pair@),
            WorkerAction::SendResult(data) => ActionView::SendResult(data@),
            WorkerAction::SendControl(message) => ActionView::SendControl(*message),
            WorkerAction::Exit => ActionView::Exit,
        }
    }
}

/// Mathematical value of a [`Worker`]: its chunk, the index of the pair
/// under the cursor, and what it is about to do.
pub ghost struct WorkerView {
    pub chunk: Seq<PairView>,
    pub next: nat,
    pub phase: PhaseView,
}

/// The cursor stays inside the chunk, and on a pair while the worker is busy.
pub open spec fn worker_wf(w: WorkerView) -> bool {
    &&& w.next <= w.chunk.len()
    &&& !(w.phase is Finished) ==> w.next < w.chunk.len()
}

/// A worker that has not started on `chunk`. An empty chunk leaves nothing
/// to do.
pub open spec fn worker_init(chunk: Seq<PairView>) -> WorkerView {
    WorkerView {
        chunk,
        next: 0,
        phase: if chunk.len() == 0 {
            PhaseView::Finished
        } else {
            PhaseView::Polling
        },
    }
}

/// The worker after the pair under the cursor is done with and failed.
pub open spec fn worker_advance(w: WorkerView) -> WorkerView {
    WorkerView {
        chunk: w.chunk,
        next: w.next + 1,
        phase: if w.next + 1 < w.chunk.len() {
            PhaseView::Polling
        } else {
            PhaseView::Finished
        },
    }
}

/// The worker's transition function.
///
/// - Polling: a `Kill` ends the worker before the pair is probed; anything
///   else, or nothing, lets the probe go ahead.
/// - Probing: a success is to be published; a failure of either kind is to
///   be reported, and the pair is not tried again.
/// - Publishing: once the payload is out the worker announces it; if the
///   receiver is gone the worker ends.
/// - Announcing: the worker ends, whether the signal was delivered or not.
/// - Reporting: the worker moves to the next pair, or ends at the end of
///   the chunk or when the receiver is gone.
/// - An event that does not answer the pending action changes nothing.
pub open spec fn worker_next(w: WorkerView, event: EventView) -> WorkerView {
    match (w.phase, event) {
        (PhaseView::Polling, EventView::Polled(Some(ThreadMessage::Kill))) => WorkerView {
            phase: PhaseView::Finished,
            ..w
        },
        (PhaseView::Polling, EventView::Polled(_)) => WorkerView { phase: PhaseView::Probing, ..w },
        (PhaseView::Probing, EventView::Probed(OutcomeView::Success(data))) => WorkerView {
            phase: PhaseView::Publishing(data),
            ..w
        },
        (PhaseView::Probing, EventView::Probed(_)) => WorkerView {
            phase: PhaseView::Reporting,
            ..w
        },
        (PhaseView::Publishing(_), EventView::Sent(delivered)) => WorkerView {
            phase: if delivered {
                PhaseView::Announcing
            } else {
                PhaseView::Finished
            },
            ..w
        },
        (PhaseView::Announcing, EventView::Sent(_)) => WorkerView {
            phase: PhaseView::Finished,
            ..w
        },
        (PhaseView::Reporting, EventView::Sent(delivered)) => if delivered {
            worker_advance(w)
        } else {
            WorkerView { phase: PhaseView::Finished, ..w }
        },
        _ => w,
    }
}

/// What a worker in state `w` asks of its driver.
pub open spec fn worker_action(w: WorkerView) -> ActionView {
    match w.phase {
        PhaseView::Polling => ActionView::PollStop,
        PhaseView::Probing => ActionView::Probe(w.chunk[w.next as int]),
        PhaseView::Publishing(data) => ActionView::SendResult(data),
        PhaseView::Announcing => ActionView::SendControl(ThreadMessage::Data),
        PhaseView::Reporting => ActionView::SendControl(ThreadMessage::Waiting),
        PhaseView::Finished => ActionView::Exit,
    }
}

/// Every transition keeps the worker well formed, leaves its chunk alone
/// and never moves the cursor back.
pub proof fn lemma_worker_next_wf(w: WorkerView, event: EventView)
    requires
        worker_wf(w),
    ensures
        worker_wf(worker_next(w, event)),
        worker_next(w, event).chunk == w.chunk,
        w.next <= worker_next(w, event).next <= w.next + 1,
        w.phase is Finished ==> worker_next(w, event) == w,
{
}

/// Steps that a phase is away, at most, from the end of the work on the
/// pair under the cursor.
pub open spec fn phase_distance(phase: PhaseView) -> nat {
    match phase {
        PhaseView::Polling => 4,
        PhaseView::Probing => 3,
        PhaseView::Publishing(_) => 2,
        PhaseView::Announcing => 1,
        PhaseView::Reporting => 1,
        PhaseView::Finished => 0,
    }
}

/// Whether probing the pair at index `j` of `chunk` fails.
pub open spec fn rejected(chunk: Seq<PairView>, oracle: spec_fn(PairView) -> OutcomeView, j: int)
    -> bool {
    !(oracle(chunk[j]) is Success)
}

/// Index of the first pair of `chunk`, at or after `from`, whose probe
/// succeeds.
pub open spec fn first_hit(
    chunk: Seq<PairView>,
    oracle: spec_fn(PairView) -> OutcomeView,
    from: nat,
) -> Option<nat>
    decreases chunk.len() - from,
{
    if from >= chunk.len() {
        None
    } else if rejected(chunk, oracle, from as int) {
        first_hit(chunk, oracle, from + 1)
    } else {
        Some(from)
    }
}

/// The payload of the first successful probe of `chunk`, if any succeeds.
pub open spec fn chunk_result(chunk: Seq<PairView>, oracle: spec_fn(PairView) -> OutcomeView)
    -> Option<KeyDataView> {
    match first_hit(chunk, oracle, 0) {
        Some(k) => Some(oracle(chunk[k as int])->Success_0),
        None => None,
    }
}

/// `first_hit` finds the least index whose probe succeeds, and finds none
/// only if every probe fails.
pub proof fn lemma_first_hit(
    chunk: Seq<PairView>,
    oracle: spec_fn(PairView) -> OutcomeView,
    from: nat,
)
    ensures
        match first_hit(chunk, oracle, from) {
            Some(k) => {
                &&& from <= k < chunk.len()
                &&& !rejected(chunk, oracle, k as int)
                &&& forall|j: int| from <= j < k ==> #[trigger] rejected(chunk, oracle, j)
            },
            None => forall|j: int| from <= j < chunk.len() ==> #[trigger] rejected(chunk, oracle, j),
        },
    decreases chunk.len() - from,
{
    if from < chunk.len() && rejected(chunk, oracle, from as int) {
        lemma_first_hit(chunk, oracle, from + 1);
    }
}

/// An index whose probe succeeds, with only failures before it, is the
/// first hit.
pub proof fn lemma_first_hit_at(
    chunk: Seq<PairView>,
    oracle: spec_fn(PairView) -> OutcomeView,
    from: nat,
    k: nat,
)
    requires
        from <= k < chunk.len(),
        !rejected(chunk, oracle, k as int),
        forall|j: int| from <= j < k ==> #[trigger] rejected(chunk, oracle, j),
    ensures
        first_hit(chunk, oracle, from) == Some(k),
    decreases k - from,
{
    if from < k {
        assert(rejected(chunk, oracle, from as int));
        lemma_first_hit_at(chunk, oracle, from + 1, k);
    }
}

/// What the inline driver reports to a worker: no stop is ever seen, the
/// probe gives what the oracle says, and every send succeeds.
pub open spec fn inline_event(w: WorkerView, oracle: spec_fn(PairView) -> OutcomeView)
    -> EventView {
    match w.phase {
        PhaseView::Polling => EventView::Polled(None),
        PhaseView::Probing => EventView::Probed(oracle(w.chunk[w.next as int])),
        _ => EventView::Sent(true),
    }
}

/// Steps that a phase is away from the end of the work on one pair.
pub open spec fn phase_steps(phase: PhaseView) -> nat {
    match phase {
        PhaseView::Polling => 2,
        PhaseView::Probing => 1,
        _ => 0,
    }
}

/// The payload that the inline driver ends with when it runs the worker
/// from state `w` to its end: the first payload that the worker asks to
/// publish.
pub open spec fn inline_result(w: WorkerView, oracle: spec_fn(PairView) -> OutcomeView) -> Option<
    KeyDataView,
>
    decreases w.chunk.len() - w.next, phase_steps(w.phase),
{
    if !worker_wf(w) {
        None
    } else {
        match w.phase {
            PhaseView::Finished => None,
            PhaseView::Announcing => None,
            PhaseView::Publishing(data) => Some(data),
            _ => inline_result(worker_next(w, inline_event(w, oracle)), oracle),
        }
    }
}

/// From a worker that is about to poll, the inline run reports the first
/// hit at or after the cursor.
proof fn lemma_inline_from(w: WorkerView, oracle: spec_fn(PairView) -> OutcomeView)
    requires
        worker_wf(w),
        w.phase is Polling || (w.phase is Finished && w.next == w.chunk.len()),
    ensures
        inline_result(w, oracle) == match first_hit(w.chunk, oracle, w.next) {
            Some(k) => Some(oracle(w.chunk[k as int])->Success_0),
            None => None,
        },
    decreases w.chunk.len() - w.next,
{
    if w.phase is Polling {
        let probing = worker_next(w, inline_event(w, oracle));
        assert(probing.phase is Probing);
        let probed = worker_next(probing, inline_event(probing, oracle));
        assert(inline_result(w, oracle) == inline_result(probing, oracle));
        assert(inline_result(probing, oracle) == inline_result(probed, oracle));
        if rejected(w.chunk, oracle, w.next as int) {
            assert(probed.phase is Reporting);
            let advanced = worker_next(probed, inline_event(probed, oracle));
            assert(advanced == worker_advance(w));
            assert(inline_result(probed, oracle) == inline_result(advanced, oracle));
            lemma_inline_from(advanced, oracle);
        } else {
            assert(probed.phase is Publishing);
        }
    }
}

/// The inline path reports the first pair of the chunk, in order, whose
/// probe succeeds, and nothing if every probe fails.
pub proof fn lemma_inline_reports_first_hit(
    chunk: Seq<PairView>,
    oracle: spec_fn(PairView) -> OutcomeView,
)
    ensures
        inline_result(worker_init(chunk), oracle) == chunk_result(chunk, oracle),
{
    lemma_inline_from(worker_init(chunk), oracle);
}

/// A worker over one chunk of the credential space.
#[derive(Debug)]
pub struct Worker {
    chunk: Vec<CredentialPair>,
    next: usize,
    phase: WorkerPhase,
}

impl View for Worker {
    type V = WorkerView;

    closed spec fn view(&self) -> WorkerView {
        WorkerView { chunk: pairs(self.chunk@), next: self.next as nat, phase: self.phase@ }
    }
}

impl Worker {
    #[verifier::type_invariant]
    spec fn well_formed(self) -> bool {
        worker_wf(self@)
    }

    /// A worker that has not started on `chunk`.
    pub fn new(chunk: Vec<CredentialPair>) -> (worker: Worker)
        ensures
            worker@ == worker_init(pairs(chunk@)),
            worker_wf(worker@),
    {
        let phase = if chunk.len() == 0 {
            WorkerPhase::Finished
        } else {
            WorkerPhase::Polling
        };
        Worker { chunk, next: 0, phase }
    }

    /// What the driver has to do next.
    pub fn action(&self) -> (action: WorkerAction)
        ensures
            action@ == worker_action(self@),
            worker_wf(self@),
    {
        proof {
            use_type_invariant(self);
        }
        match &self.phase {
            WorkerPhase::Polling => WorkerAction::PollStop,
            WorkerPhase::Probing => WorkerAction::Probe(self.chunk[self.next].clone()),
            WorkerPhase::Publishing(data) => WorkerAction::SendResult(data.clone()),
            WorkerPhase::Announcing => WorkerAction::SendControl(ThreadMessage::Data),
            WorkerPhase::Reporting => WorkerAction::SendControl(ThreadMessage::Waiting),
            WorkerPhase::Finished => WorkerAction::Exit,
        }
    }

    /// Takes in the outcome of the action last asked for.
    pub fn step(&mut self, event: WorkerEvent)
        ensures
            final(self)@ == worker_next(old(self)@, event@),
            worker_wf(final(self)@),
    {
        proof {
            use_type_invariant(&*self);
            lemma_worker_next_wf(self@, event@);
        }
        match event {
            WorkerEvent::Polled(message) => {
                if let WorkerPhase::Polling = &self.phase {
                    let stop = match message {
                        Some(ThreadMessage::Kill) => true,
                        _ => false,
                    };
                    if stop {
                        self.phase = WorkerPhase::Finished;
                    } else {
                        self.phase = WorkerPhase::Probing;
                    }
                }
            },
            WorkerEvent::Probed(outcome) => {
                if let WorkerPhase::Probing = &self.phase {
                    match outcome {
                        ProbeOutcome::Success(data) => {
                            self.phase = WorkerPhase::Publishing(data);
                        },
                        _ => {
                            self.phase = WorkerPhase::Reporting;
                        },
                    }
                }
            },
            WorkerEvent::Sent(delivered) => {
                let publishing = match &self.phase {
                    WorkerPhase::Publishing(_) => true,
                    _ => false,
                };
                let announcing = match &self.phase {
                    WorkerPhase::Announcing => true,
                    _ => false,
                };
                let reporting = match &self.phase {
                    WorkerPhase::Reporting => true,
                    _ => false,
                };
                if publishing {
                    if delivered {
                        self.phase = WorkerPhase::Announcing;
                    } else {
                        self.phase = WorkerPhase::Finished;
                    }
                } else if announcing {
                    self.phase = WorkerPhase::Finished;
                } else if reporting {
                    if delivered {
                        let len = self.chunk.len();
                        assert(pairs(self.chunk@).len() == len);
                        let following = self.next + 1;
                        if following < len {
                            self.phase = WorkerPhase::Polling;
                        } else {
                            self.phase = WorkerPhase::Finished;
                        }
                        self.next = following;
                    } else {
                        self.phase = WorkerPhase::Finished;
                    }
                }
            },
        }
    }

    /// Whether the worker has nothing more to do.
    pub fn is_finished(&self) -> (finished: bool)
        ensures
            finished == (self@.phase is Finished),
    {
        match &self.phase {
            WorkerPhase::Finished => true,
            _ => false,
        }
    }

    /// How many pairs of the chunk the worker is done with.
    pub fn consumed(&self) -> (count: usize)
        ensures
            count == self@.next,
            count <= self@.chunk.len(),
    {
        proof {
            use_type_invariant(self);
        }
        self.next
    }
}

} // verus!
