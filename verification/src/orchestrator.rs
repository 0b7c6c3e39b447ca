//! The orchestrator: the state machine that dispatches the workers, waits
//! for the first success, stops the others and hands over the result.
//!
//! Like the worker it only decides. Its driver spawns and joins threads,
//! reads the channels and reports what happened as an
//! [`OrchestratorEvent`].

use vstd::prelude::*;
use crate::types::{KeyDataView, PrivateKeyData, ThreadMessage};

verus! {

/// How many polls of the control channel the orchestrator makes by default
/// before it gives up waiting.
pub const DEFAULT_POLL_BUDGET: usize = 10;

/// Milliseconds that one poll of the control channel may take.
pub const CONTROL_POLL_MILLIS: u64 = 500;

/// Milliseconds that a worker may spend on one check of the stop channel.
pub const STOP_POLL_MILLIS: u64 = 50;

/// The four states of a run.
#[derive(Debug, Clone, Copy, PartialEq, Eq, Structural)]
pub enum OrchestratorState {
    Dispatching,
    Waiting,
    Draining,
    Done,
}

/// Where the orchestrator stands, one step finer than [`OrchestratorState`].
#[derive(Debug, Clone, Copy, PartialEq, Eq, Structural)]
pub enum OrchestratorPhase {
    /// The workers are not running yet.
    Dispatching,
    /// Reading the control channel.
    Waiting,
    /// A `Data` signal was read; the payload is to be taken off the result
    /// channel.
    Receiving,
    /// The stop signal is to be broadcast.
    Stopping,
    /// The workers are to be joined.
    Joining,
    /// The run is over.
    Done,
}

/// What the orchestrator asks its driver to do.
#[derive(Debug, Clone, Copy, PartialEq, Eq, Structural)]
pub enum OrchestratorAction {
    /// Run the probe loop over the whole credential space on this thread.
    RunInline,
    /// Partition the credential space and spawn one worker per chunk.
    SpawnWorkers,
    /// Wait for a signal on the control channel, one poll interval at most.
    AwaitControl,
    /// Read the payload off the result channel.
    TakeResult,
    /// Broadcast `Kill` to the workers.
    BroadcastStop,
    /// Join every worker.
    JoinWorkers,
    /// Hand the result over.
    Finish,
}

/// What the driver reports back to the orchestrator.
#[derive(Debug)]
pub enum OrchestratorEvent {
    /// The workers are running.
    Dispatched,
    /// The inline probe loop has ended, with the payload of its first
    /// success if it had one.
    InlineFinished(Option<PrivateKeyData>),
    /// A signal was read off the control channel.
    Control(ThreadMessage),
    /// A poll interval passed without a signal.
    TimedOut,
    /// Every worker is gone and the control channel is empty.
    Disconnected,
    /// The result channel was read; `None` if it held nothing.
    Payload(Option<PrivateKeyData>),
    /// The stop signal is out.
    StopSent,
    /// Every worker has been joined.
    Joined,
}

/// Mathematical value of an [`OrchestratorEvent`].
pub ghost enum OrchEventView {
    Dispatched,
    InlineFinished(Option<KeyDataView>),
    Control(ThreadMessage),
    TimedOut,
    Disconnected,
    Payload(Option<KeyDataView>),
    StopSent,
    Joined,
}

/// The view of an optional payload.
pub open spec fn payload_view(payload: Option<PrivateKeyData>) -> Option<KeyDataView> {
    match payload {
        Some(data) => Some(data@),
        None => None,
    }
}

impl View for OrchestratorEvent {
    type V = OrchEventView;

    open spec fn view(&self) -> OrchEventView {
        match self {
            OrchestratorEvent::Dispatched => OrchEventView::Dispatched,
            OrchestratorEvent::InlineFinished(payload) => OrchEventView::InlineFinished(
                payload_view(*payload),
            ),
            OrchestratorEvent::Control(message) => OrchEventView::Control(*message),
            OrchestratorEvent::TimedOut => OrchEventView::TimedOut,
            OrchestratorEvent::Disconnected => OrchEventView::Disconnected,
            OrchestratorEvent::Payload(payload) => OrchEventView::Payload(payload_view(*payload)),
            OrchestratorEvent::StopSent => OrchEventView::StopSent,
            OrchestratorEvent::Joined => OrchEventView::Joined,
        }
    }
}

/// Mathematical value of an [`Orchestrator`].
pub ghost struct OrchView {
    pub phase: OrchestratorPhase,
    /// Number of workers; one means the inline path.
    pub threads: nat,
    /// Polls of the control channel that may still time out.
    pub polls_left: nat,
    /// The payload of the first success received, if any.
    pub result: Option<KeyDataView>,
    /// Whether the wait ended because the poll budget ran out.
    pub gave_up: bool,
}

/// The orchestrator before dispatch. A thread count below two selects the
/// inline path.
pub open spec fn orch_init(threads: nat, poll_budget: nat) -> OrchView {
    OrchView {
        phase: OrchestratorPhase::Dispatching,
        threads: if threads < 2 {
            1
        } else {
            threads
        },
        polls_left: poll_budget,
        result: None,
        gave_up: false,
    }
}

/// The orchestrator's transition function.
///
/// - Dispatching: on the inline path the end of the probe loop ends the run
///   with whatever it found; otherwise the run waits once the workers are
///   dispatched.
/// - Waiting: `Data` leads to the read of the payload; other signals are
///   informational. A poll that times out uses up one unit of the budget,
///   and the last unit ends the wait with nothing found. So does the loss
///   of every worker.
/// - Receiving: whatever the result channel gave is the result; the run
///   goes on to stop the workers.
/// - Stopping, Joining: one step each towards the end.
/// - An event that does not answer the pending action changes nothing, and
///   nothing changes once the run is over.
pub open spec fn orch_next(o: OrchView, event: OrchEventView) -> OrchView {
    match (o.phase, event) {
        (OrchestratorPhase::Dispatching, OrchEventView::InlineFinished(payload)) => if o.threads
            == 1 {
            OrchView { phase: OrchestratorPhase::Done, result: payload, ..o }
        } else {
            o
        },
        (OrchestratorPhase::Dispatching, OrchEventView::Dispatched) => if o.threads == 1 {
            o
        } else {
            OrchView { phase: OrchestratorPhase::Waiting, ..o }
        },
        (OrchestratorPhase::Waiting, OrchEventView::Control(ThreadMessage::Data)) => OrchView {
            phase: OrchestratorPhase::Receiving,
            ..o
        },
        (OrchestratorPhase::Waiting, OrchEventView::TimedOut) => if o.polls_left <= 1 {
            OrchView { phase: OrchestratorPhase::Stopping, polls_left: 0, gave_up: true, ..o }
        } else {
            OrchView { polls_left: (o.polls_left - 1) as nat, ..o }
        },
        (OrchestratorPhase::Waiting, OrchEventView::Disconnected) => OrchView {
            phase: OrchestratorPhase::Stopping,
            ..o
        },
        (OrchestratorPhase::Receiving, OrchEventView::Payload(payload)) => OrchView {
            phase: OrchestratorPhase::Stopping,
            result: payload,
            ..o
        },
        (OrchestratorPhase::Stopping, OrchEventView::StopSent) => OrchView {
            phase: OrchestratorPhase::Joining,
            ..o
        },
        (OrchestratorPhase::Joining, OrchEventView::Joined) => OrchView {
            phase: OrchestratorPhase::Done,
            ..o
        },
        _ => o,
    }
}

/// What an orchestrator in state `o` asks of its driver.
pub open spec fn orch_action(o: OrchView) -> OrchestratorAction {
    match o.phase {
        OrchestratorPhase::Dispatching => if o.threads == 1 {
            OrchestratorAction::RunInline
        } else {
            OrchestratorAction::SpawnWorkers
        },
        OrchestratorPhase::Waiting => OrchestratorAction::AwaitControl,
        OrchestratorPhase::Receiving => OrchestratorAction::TakeResult,
        OrchestratorPhase::Stopping => OrchestratorAction::BroadcastStop,
        OrchestratorPhase::Joining => OrchestratorAction::JoinWorkers,
        OrchestratorPhase::Done => OrchestratorAction::Finish,
    }
}

/// The state of the run that a phase belongs to.
pub open spec fn state_of(phase: OrchestratorPhase) -> OrchestratorState {
    match phase {
        OrchestratorPhase::Dispatching => OrchestratorState::Dispatching,
        OrchestratorPhase::Waiting => OrchestratorState::Waiting,
        OrchestratorPhase::Receiving => OrchestratorState::Waiting,
        OrchestratorPhase::Stopping => OrchestratorState::Draining,
        OrchestratorPhase::Joining => OrchestratorState::Draining,
        OrchestratorPhase::Done => OrchestratorState::Done,
    }
}

/// The orchestrator after a sequence of events, taken in order.
pub open spec fn orch_run(o: OrchView, events: Seq<OrchEventView>) -> OrchView
    decreases events.len(),
{
    if events.len() == 0 {
        o
    } else {
        orch_next(orch_run(o, events.drop_last()), events.last())
    }
}

/// How many of `events` are polls that timed out.
pub open spec fn timeouts_in(events: Seq<OrchEventView>) -> nat
    decreases events.len(),
{
    if events.len() == 0 {
        0
    } else {
        timeouts_in(events.drop_last()) + if events.last() is TimedOut {
            1nat
        } else {
            0nat
        }
    }
}

/// The result is populated at most once: when the wait is over, what the
/// orchestrator holds is never replaced or dropped, whatever is reported
/// afterwards.
pub proof fn lemma_result_set_once(o: OrchView, events: Seq<OrchEventView>)
    requires
        phase_rank(o.phase) >= 3,
    ensures
        orch_run(o, events).result == o.result,
        orch_run(o, events).gave_up == o.gave_up,
    decreases events.len(),
{
    if events.len() > 0 {
        lemma_result_set_once(o, events.drop_last());
        lemma_run_never_returns(o, events.drop_last());
    }
}

/// Until a payload is read the result is empty: an orchestrator that is
/// still dispatching or waiting holds none.
pub proof fn lemma_result_empty_while_waiting(
    threads: nat,
    poll_budget: nat,
    events: Seq<OrchEventView>,
)
    ensures
        phase_rank(orch_run(orch_init(threads, poll_budget), events).phase) <= 2 ==> orch_run(
            orch_init(threads, poll_budget),
            events,
        ).result is None,
    decreases events.len(),
{
    if events.len() > 0 {
        lemma_result_empty_while_waiting(threads, poll_budget, events.drop_last());
        lemma_run_never_returns(orch_init(threads, poll_budget), events.drop_last());
    }
}

/// The states are passed in order: no sequence of events takes the
/// orchestrator back to a phase it has left.
pub proof fn lemma_run_never_returns(o: OrchView, events: Seq<OrchEventView>)
    ensures
        phase_rank(orch_run(o, events).phase) >= phase_rank(o.phase),
        orch_run(o, events).threads == o.threads,
    decreases events.len(),
{
    if events.len() > 0 {
        lemma_run_never_returns(o, events.drop_last());
    }
}

/// Position of a phase in the order in which a run passes through them.
pub open spec fn phase_rank(phase: OrchestratorPhase) -> nat {
    match phase {
        OrchestratorPhase::Dispatching => 0,
        OrchestratorPhase::Waiting => 1,
        OrchestratorPhase::Receiving => 2,
        OrchestratorPhase::Stopping => 3,
        OrchestratorPhase::Joining => 4,
        OrchestratorPhase::Done => 5,
    }
}

/// The wait is bounded: once as many polls have timed out as the budget
/// allows, the orchestrator is no longer waiting, whatever else was
/// reported in between and whether or not any worker ever answered.
pub proof fn lemma_wait_is_bounded(o: OrchView, events: Seq<OrchEventView>)
    requires
        o.phase is Waiting,
        timeouts_in(events) >= o.polls_left,
        timeouts_in(events) >= 1,
    ensures
        !(orch_run(o, events).phase is Waiting),
        !(orch_run(o, events).phase is Dispatching),
    decreases events.len(),
{
    lemma_wait_budget(o, events);
}

/// While the orchestrator waits, the budget shrinks by one with each poll
/// that times out.
proof fn lemma_wait_budget(o: OrchView, events: Seq<OrchEventView>)
    requires
        o.phase is Waiting,
    ensures
        phase_rank(orch_run(o, events).phase) >= 1,
        orch_run(o, events).phase is Waiting ==> {
            &&& timeouts_in(events) == 0 || timeouts_in(events) < o.polls_left
            &&& orch_run(o, events).polls_left == o.polls_left - timeouts_in(events)
        },
    decreases events.len(),
{
    if events.len() > 0 {
        lemma_wait_budget(o, events.drop_last());
    }
}

/// The orchestrator of one run.
#[derive(Debug)]
pub struct Orchestrator {
    phase: OrchestratorPhase,
    threads: usize,
    polls_left: usize,
    result: Option<PrivateKeyData>,
    gave_up: bool,
}

impl View for Orchestrator {
    type V = OrchView;

    closed spec fn view(&self) -> OrchView {
        OrchView {
            phase: self.phase,
            threads: self.threads as nat,
            polls_left: self.polls_left as nat,
            result: payload_view(self.result),
            gave_up: self.gave_up,
        }
    }
}

impl Orchestrator {
    /// An orchestrator for `threads` workers that gives up waiting after
    /// `poll_budget` polls without a signal.
    pub fn new(threads: usize, poll_budget: usize) -> (orchestrator: Orchestrator)
        ensures
            orchestrator@ == orch_init(threads as nat, poll_budget as nat),
    {
        Orchestrator {
            phase: OrchestratorPhase::Dispatching,
            threads: if threads < 2 {
                1
            } else {
                threads
            },
            polls_left: poll_budget,
            result: None,
            gave_up: false,
        }
    }

    /// What the driver has to do next.
    pub fn action(&self) -> (action: OrchestratorAction)
        ensures
            action == orch_action(self@),
    {
        match self.phase {
            OrchestratorPhase::Dispatching => if self.threads == 1 {
                OrchestratorAction::RunInline
            } else {
                OrchestratorAction::SpawnWorkers
            },
            OrchestratorPhase::Waiting => OrchestratorAction::AwaitControl,
            OrchestratorPhase::Receiving => OrchestratorAction::TakeResult,
            OrchestratorPhase::Stopping => OrchestratorAction::BroadcastStop,
            OrchestratorPhase::Joining => OrchestratorAction::JoinWorkers,
            OrchestratorPhase::Done => OrchestratorAction::Finish,
        }
    }

    /// Takes in the outcome of the action last asked for.
    pub fn step(&mut self, event: OrchestratorEvent)
        ensures
            final(self)@ == orch_next(old(self)@, event@),
    {
        match event {
            OrchestratorEvent::InlineFinished(payload) => {
                if self.phase == OrchestratorPhase::Dispatching && self.threads == 1 {
                    self.phase = OrchestratorPhase::Done;
                    self.result = payload;
                }
            },
            OrchestratorEvent::Dispatched => {
                if self.phase == OrchestratorPhase::Dispatching && self.threads != 1 {
                    self.phase = OrchestratorPhase::Waiting;
                }
            },
            OrchestratorEvent::Control(message) => {
                if self.phase == OrchestratorPhase::Waiting && message == ThreadMessage::Data {
                    self.phase = OrchestratorPhase::Receiving;
                }
            },
            OrchestratorEvent::TimedOut => {
                if self.phase == OrchestratorPhase::Waiting {
                    if self.polls_left <= 1 {
                        self.phase = OrchestratorPhase::Stopping;
                        self.polls_left = 0;
                        self.gave_up = true;
                    } else {
                        self.polls_left = self.polls_left - 1;
                    }
                }
            },
            OrchestratorEvent::Disconnected => {
                if self.phase == OrchestratorPhase::Waiting {
                    self.phase = OrchestratorPhase::Stopping;
                }
            },
            OrchestratorEvent::Payload(payload) => {
                if self.phase == OrchestratorPhase::Receiving {
                    self.phase = OrchestratorPhase::Stopping;
                    self.result = payload;
                }
            },
            OrchestratorEvent::StopSent => {
                if self.phase == OrchestratorPhase::Stopping {
                    self.phase = OrchestratorPhase::Joining;
                }
            },
            OrchestratorEvent::Joined => {
                if self.phase == OrchestratorPhase::Joining {
                    self.phase = OrchestratorPhase::Done;
                }
            },
        }
    }

    /// The state of the run.
    pub fn state(&self) -> (state: OrchestratorState)
        ensures
            state == state_of(self@.phase),
    {
        match self.phase {
            OrchestratorPhase::Dispatching => OrchestratorState::Dispatching,
            OrchestratorPhase::Waiting => OrchestratorState::Waiting,
            OrchestratorPhase::Receiving => OrchestratorState::Waiting,
            OrchestratorPhase::Stopping => OrchestratorState::Draining,
            OrchestratorPhase::Joining => OrchestratorState::Draining,
            OrchestratorPhase::Done => OrchestratorState::Done,
        }
    }

    /// Number of workers of the run; one on the inline path.
    pub fn threads(&self) -> (threads: usize)
        ensures
            threads == self@.threads,
    {
        self.threads
    }

    /// Whether the wait ended because the poll budget ran out.
    pub fn gave_up(&self) -> (gave_up: bool)
        ensures
            gave_up == self@.gave_up,
    {
        self.gave_up
    }

    /// Ends the run and hands over the payload of the first success, if
    /// there was one.
    pub fn into_result(self) -> (result: Option<PrivateKeyData>)
        ensures
            payload_view(result) == self@.result,
    {
        self.result
    }
}

} // verus!
