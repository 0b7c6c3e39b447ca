//! The inline path: the probe loop on the calling thread, with the same
//! worker and without channels.

use vstd::prelude::*;
use crate::keys::key_size_accepted;
use crate::probe::{prepare_probe, ConnectRequest};
use crate::types::{Arguments, KeyDataView, KeyInfo, PrivateKeyData, ProbeOutcome};
use crate::worker::{phase_distance, PhaseView, Worker, WorkerAction, WorkerEvent, WorkerView};

verus! {

/// The payload of a reported outcome, if it is a success.
pub open spec fn reported_success(probed: Option<ProbeOutcome>) -> Option<KeyDataView> {
    match probed {
        Some(ProbeOutcome::Success(data)) => Some(data@),
        _ => None,
    }
}

/// What the inline driver has to do next.
#[derive(Debug)]
pub enum InlineStep {
    /// Make this connection attempt and come back with its outcome.
    Connect(ConnectRequest),
    /// The run is over: this pair authenticated.
    Found(PrivateKeyData),
    /// The run is over: every pair was tried and none authenticated.
    Exhausted,
}

/// The states that a worker passes through on the inline path, where no
/// stop is ever seen and nothing is ever sent: it is busy with a pair, or
/// holds the payload of a success, or has used up its chunk.
pub open spec fn inline_state(w: WorkerView) -> bool {
    &&& !(w.phase is Announcing)
    &&& w.phase is Finished ==> w.next == w.chunk.len()
}

impl Arguments {
    /// Runs a worker inline up to its next connection attempt.
    ///
    /// `probed` is the outcome of the attempt that the last call asked
    /// for, if there was one. The worker then goes on as it does on its
    /// channels, except that every check for a stop finds nothing and
    /// every notice counts as sent: it derives the key for the next pair,
    /// and uses up a pair for which no key can be derived. The first
    /// success ends the run and is handed over; it is not sent anywhere.
    ///
    /// The result is what to connect with next, the payload of the
    /// success, or the news that the chunk is used up. The keys decide how
    /// far the worker gets; whatever they do, a request names the pair
    /// under the cursor and the target of `info`, the payload is the one
    /// that the worker holds, the chunk is untouched, and a worker that
    /// only ever ran inline is exhausted only at the end of its chunk. A
    /// success that is reported is the payload handed over, on the pair
    /// that succeeded. A failure that is reported uses the pair up: the
    /// cursor moves on, and no later request names that pair again.
    pub fn inline_populate_buffer(worker: &mut Worker, info: &KeyInfo, probed: Option<ProbeOutcome>) -> (step:
        InlineStep)
        ensures
            final(worker)@.chunk == old(worker)@.chunk,
            old(worker)@.next <= final(worker)@.next <= final(worker)@.chunk.len(),
            match step {
                InlineStep::Connect(request) => {
                    &&& final(worker)@.phase is Probing
                    &&& final(worker)@.next < final(worker)@.chunk.len()
                    &&& request.host@ == info.ip@
                    &&& request.username@ == final(worker)@.chunk[final(worker)@.next as int].username
                    &&& request.password@ == final(worker)@.chunk[final(worker)@.next as int].password
                    &&& request.private_key@.len() > 0
                    &&& forall|i: int|
                        0 <= i < request.private_key@.len() ==> request.private_key@[i] != '\n'
                },
                InlineStep::Found(data) => final(worker)@.phase == PhaseView::Publishing(data@),
                InlineStep::Exhausted => final(worker)@.phase is Finished,
            },
            !key_size_accepted(info.algo, info.bits) ==> !(step is Connect),
            inline_state(old(worker)@) ==> inline_state(final(worker)@),
            old(worker)@.phase is Finished ==> step is Exhausted && final(worker)@ == old(worker)@,
            old(worker)@.phase is Publishing && probed is None ==> step is Found && final(worker)@
                == old(worker)@,
            old(worker)@.phase is Probing ==> (reported_success(probed) matches Some(data) ==> {
                &&& step matches InlineStep::Found(found) && found@ == data
                &&& final(worker)@.next == old(worker)@.next
            }),
            probed matches Some(outcome) && !(outcome is Success) && old(worker)@.phase is Probing
                ==> final(worker)@.next > old(worker)@.next,
    {
        if let Some(outcome) = probed {
            worker.step(WorkerEvent::Probed(outcome));
        }
        loop
            invariant
                worker@.chunk == old(worker)@.chunk,
                old(worker)@.next <= worker@.next,
                inline_state(old(worker)@) ==> inline_state(worker@),
                old(worker)@.phase is Finished ==> worker@ == old(worker)@,
                old(worker)@.phase is Publishing && probed is None ==> worker@ == old(worker)@,
                old(worker)@.phase is Probing ==> (reported_success(probed) matches Some(data)
                    ==> worker@.phase == PhaseView::Publishing(data) && worker@.next == old(
                    worker,
                )@.next),
                probed matches Some(outcome) && !(outcome is Success) && old(worker)@.phase
                    is Probing ==> {
                    ||| worker@.phase is Reporting && worker@.next == old(worker)@.next
                    ||| worker@.next > old(worker)@.next
                },
            decreases worker@.chunk.len() - worker@.next, phase_distance(worker@.phase),
        {
            match worker.action() {
                WorkerAction::PollStop => {
                    worker.step(WorkerEvent::Polled(None));
                },
                WorkerAction::Probe(pair) => {
                    match prepare_probe(&pair, info) {
                        Ok(request) => {
                            return InlineStep::Connect(request);
                        },
                        Err(outcome) => {
                            worker.step(WorkerEvent::Probed(outcome));
                        },
                    }
                },
                WorkerAction::SendResult(payload) => {
                    return InlineStep::Found(payload);
                },
                WorkerAction::SendControl(_) => {
                    worker.step(WorkerEvent::Sent(true));
                },
                WorkerAction::Exit => {
                    return InlineStep::Exhausted;
                },
            }
        }
    }
}

} // verus!
