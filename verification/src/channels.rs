//! The machines on their channels: what a worker and the orchestrator do
//! between the steps that only a driver can take (a connection attempt, the
//! spawning and joining of threads).

use vstd::prelude::*;
use crossbeam::channel::{Receiver, Sender};
use crate::orchestrator::{
    orch_action, orch_next, OrchEventView, Orchestrator, OrchestratorAction, OrchestratorEvent,
};
use crate::keys::key_size_accepted;
use crate::probe::{prepare_probe, ConnectRequest};
use crate::types::{Arguments, KeyInfo, PrivateKeyData, ProbeOutcome, ThreadMessage};
use crate::worker::{phase_distance, Worker, WorkerAction, WorkerEvent};

verus! {

/// The sending end of a `crossbeam` channel.
#[verifier::external_type_specification]
#[verifier::external_body]
#[verifier::reject_recursive_types(T)]
pub struct ExSender<T>(Sender<T>);

/// The receiving end of a `crossbeam` channel.
#[verifier::external_type_specification]
#[verifier::external_body]
#[verifier::reject_recursive_types(T)]
pub struct ExReceiver<T>(Receiver<T>);

/// What a bounded wait on a channel of signals ended with.
#[derive(Debug, Clone, Copy, PartialEq, Eq, Structural)]
pub enum Received {
    /// A signal arrived.
    Signal(ThreadMessage),
    /// The time ran out with the channel empty.
    TimedOut,
    /// The channel is empty and every sender is gone.
    Disconnected,
}

/// Calls `Sender::send`. What the call returns depends on the other threads;
/// the result says whether the message was taken, which fails only when
/// every receiver is gone. On a channel without bound the call never
/// waits; on a bounded one it waits while the channel is full.
#[verifier::external_body]
fn send_on<T>(channel: &Sender<T>, message: T) -> (delivered: bool) {
    channel.send(message).is_ok()
}

/// Calls `Receiver::recv_timeout` with a wait of `millis` milliseconds. What
/// comes back depends on the other threads.
#[verifier::external_body]
fn receive_within(channel: &Receiver<ThreadMessage>, millis: u64) -> (received: Received) {
    match channel.recv_timeout(std::time::Duration::from_millis(millis)) {
        Ok(signal) => Received::Signal(signal),
        Err(crossbeam::channel::RecvTimeoutError::Timeout) => Received::TimedOut,
        Err(crossbeam::channel::RecvTimeoutError::Disconnected) => Received::Disconnected,
    }
}

/// Calls `Receiver::try_recv`: the oldest payload in the channel, or `None`
/// if it holds none. What comes back depends on the other threads.
#[verifier::external_body]
fn take_from(channel: &Receiver<PrivateKeyData>) -> (payload: Option<PrivateKeyData>) {
    match channel.try_recv() {
        Ok(payload) => Some(payload),
        Err(_) => None,
    }
}

/// Whether `event` can answer the action `action` of the orchestrator.
pub open spec fn answers(action: OrchestratorAction, event: OrchEventView) -> bool {
    match action {
        OrchestratorAction::AwaitControl => event is Control || event is TimedOut
            || event is Disconnected,
        OrchestratorAction::TakeResult => event is Payload,
        OrchestratorAction::BroadcastStop => event is StopSent,
        _ => false,
    }
}

impl Arguments {
    /// Runs a worker on its channels up to its next connection attempt.
    ///
    /// `probed` is the outcome of the attempt that the last call asked for,
    /// if there was one. The worker then does what it can do alone: it
    /// sends the payload and then the `Data` signal after a success, or
    /// the `Waiting` signal after a failure; it checks the stop channel
    /// before each pair, waiting `stop_poll_millis` at most; and it derives
    /// the key for the pair. A pair for which no key can be derived is used
    /// up without a connection attempt.
    ///
    /// The channels are meant to be without bound, so that no notice holds
    /// the worker up.
    ///
    /// The result is what to connect with next, or `None` when the worker
    /// is finished. The channels and the keys decide how far the worker
    /// gets; whatever they do, a request names the pair under the cursor
    /// and the target of `info`, the chunk is untouched, and the cursor
    /// never moves back. A success that is reported ends the worker on
    /// the pair that succeeded. A failure that is reported uses the pair
    /// up: the worker either ends or moves on, and no later request names
    /// that pair again.
    pub fn thread_populate_buffer(
        s_msg: &Sender<ThreadMessage>,
        r_msg: &Receiver<ThreadMessage>,
        s_out: &Sender<PrivateKeyData>,
        worker: &mut Worker,
        info: &KeyInfo,
        stop_poll_millis: u64,
        probed: Option<ProbeOutcome>,
    ) -> (request: Option<ConnectRequest>)
        ensures
            final(worker)@.chunk == old(worker)@.chunk,
            old(worker)@.next <= final(worker)@.next <= final(worker)@.chunk.len(),
            match request {
                Some(request) => {
                    &&& final(worker)@.phase is Probing
                    &&& final(worker)@.next < final(worker)@.chunk.len()
                    &&& request.host@ == info.ip@
                    &&& request.username@ == final(worker)@.chunk[final(worker)@.next as int].username
                    &&& request.password@ == final(worker)@.chunk[final(worker)@.next as int].password
                    &&& request.private_key@.len() > 0
                    &&& forall|i: int|
                        0 <= i < request.private_key@.len() ==> request.private_key@[i] != '\n'
                },
                None => final(worker)@.phase is Finished,
            },
            !key_size_accepted(info.algo, info.bits) ==> request is None,
            old(worker)@.phase is Finished ==> request is None && final(worker)@ == old(worker)@,
            probed matches Some(ProbeOutcome::Success(_)) && old(worker)@.phase is Probing ==> {
                &&& request is None
                &&& final(worker)@.next == old(worker)@.next
            },
            probed matches Some(outcome) && !(outcome is Success) && old(worker)@.phase is Probing
                ==> final(worker)@.next > old(worker)@.next || final(worker)@.phase is Finished,
            probed matches Some(outcome) && !(outcome is Success) && old(worker)@.phase is Probing
                ==> (request is Some ==> final(worker)@.next > old(worker)@.next),
    {
        if let Some(outcome) = probed {
            worker.step(WorkerEvent::Probed(outcome));
        }
        loop
            invariant
                worker@.chunk == old(worker)@.chunk,
                old(worker)@.next <= worker@.next,
                old(worker)@.phase is Finished ==> worker@ == old(worker)@,
                probed matches Some(ProbeOutcome::Success(_)) && old(worker)@.phase is Probing ==> {
                    &&& worker@.phase is Publishing || worker@.phase is Announcing
                        || worker@.phase is Finished
                    &&& worker@.next == old(worker)@.next
                },
                probed matches Some(outcome) && !(outcome is Success) && old(worker)@.phase
                    is Probing ==> {
                    ||| (worker@.phase is Reporting || worker@.phase is Finished) && worker@.next
                        == old(worker)@.next
                    ||| worker@.next > old(worker)@.next
                },
            decreases worker@.chunk.len() - worker@.next, phase_distance(worker@.phase),
        {
            match worker.action() {
                WorkerAction::PollStop => {
                    let seen = match receive_within(r_msg, stop_poll_millis) {
                        Received::Signal(signal) => Some(signal),
                        _ => None,
                    };
                    worker.step(WorkerEvent::Polled(seen));
                },
                WorkerAction::Probe(pair) => {
                    match prepare_probe(&pair, info) {
                        Ok(request) => {
                            return Some(request);
                        },
                        Err(outcome) => {
                            worker.step(WorkerEvent::Probed(outcome));
                        },
                    }
                },
                WorkerAction::SendResult(payload) => {
                    let delivered = send_on(s_out, payload);
                    worker.step(WorkerEvent::Sent(delivered));
                },
                WorkerAction::SendControl(signal) => {
                    let delivered = send_on(s_msg, signal);
                    worker.step(WorkerEvent::Sent(delivered));
                },
                WorkerAction::Exit => {
                    return None;
                },
            }
        }
    }
}

impl Orchestrator {
    /// Performs the pending action of the orchestrator if it is one on the
    /// channels, and says what is pending then.
    ///
    /// Waiting, the orchestrator reads the control channel for
    /// `poll_millis` at most; after a `Data` signal it takes the payload
    /// off the result channel; to stop the workers it sends one `Kill` for
    /// each of them. Dispatching, joining and the end of the run are the
    /// driver's, and are left as they are.
    ///
    /// The channels decide which event the action ends with; whichever it
    /// is, the orchestrator has taken the step of `orch_next` for an event
    /// that answers the action.
    pub fn advance(
        &mut self,
        control: &Receiver<ThreadMessage>,
        results: &Receiver<PrivateKeyData>,
        stop: &Sender<ThreadMessage>,
        poll_millis: u64,
    ) -> (pending: OrchestratorAction)
        ensures
            pending == orch_action(final(self)@),
            match orch_action(old(self)@) {
                OrchestratorAction::AwaitControl | OrchestratorAction::TakeResult
                | OrchestratorAction::BroadcastStop => exists|event: OrchEventView|
                    answers(orch_action(old(self)@), event) && final(self)@ == orch_next(
                        old(self)@,
                        event,
                    ),
                _ => final(self)@ == old(self)@,
            },
    {
        match self.action() {
            OrchestratorAction::AwaitControl => {
                let event = match receive_within(control, poll_millis) {
                    Received::Signal(signal) => OrchestratorEvent::Control(signal),
                    Received::TimedOut => OrchestratorEvent::TimedOut,
                    Received::Disconnected => OrchestratorEvent::Disconnected,
                };
                let ghost taken = event@;
                self.step(event);
                assert(answers(OrchestratorAction::AwaitControl, taken));
            },
            OrchestratorAction::TakeResult => {
                let event = OrchestratorEvent::Payload(take_from(results));
                let ghost taken = event@;
                self.step(event);
                assert(answers(OrchestratorAction::TakeResult, taken));
            },
            OrchestratorAction::BroadcastStop => {
                let workers = self.threads();
                let mut sent: usize = 0;
                while sent < workers
                    invariant
                        sent <= workers,
                    decreases workers - sent,
                {
                    let _ = send_on(stop, ThreadMessage::Kill);
                    sent += 1;
                }
                self.step(OrchestratorEvent::StopSent);
                assert(answers(OrchestratorAction::BroadcastStop, OrchEventView::StopSent));
            },
            _ => {},
        }
        self.action()
    }
}

} // verus!
