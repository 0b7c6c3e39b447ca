//! The pooled run as a whole: workers, channels and orchestrator under
//! every interleaving, and what holds of its result.
//!
//! The model is mathematical. A [`Pool`] holds the state of every worker,
//! what is in flight on the control and result channels, whether the stop
//! signal is out, and the state of the orchestrator. A [`Move`] lets one of
//! them take one step; a schedule is a sequence of moves. The steps are
//! those of [`worker_next`] and [`orch_next`], which the executable
//! machines implement, and the probes answer as an oracle says.

use vstd::prelude::*;
use crate::types::{KeyDataView, OutcomeView, PairView, ThreadMessage};
use crate::space::{chunk_end, chunk_start, chunks_of, lemma_chunk_bounds, lemma_index_has_chunk};
use crate::worker::{
    chunk_result, first_hit, inline_result, lemma_first_hit, lemma_first_hit_at,
    lemma_inline_reports_first_hit, lemma_worker_next_wf, phase_distance, rejected, worker_init,
    worker_next, worker_wf, EventView, PhaseView, WorkerView,
};
use crate::orchestrator::{
    orch_init, orch_next, phase_rank, OrchEventView, OrchView, OrchestratorPhase,
};

verus! {

/// The state of a pooled run.
pub ghost struct Pool {
    /// The workers, one per chunk.
    pub workers: Seq<WorkerView>,
    /// Signals sent on the control channel and not yet read, oldest first.
    pub control: Seq<ThreadMessage>,
    /// Payloads sent on the result channel and not yet read, oldest first.
    pub results: Seq<KeyDataView>,
    /// Whether the stop signal has been broadcast.
    pub stop: bool,
    /// The orchestrator.
    pub orch: OrchView,
}

/// One step of a schedule.
pub ghost enum Move {
    /// Worker `index` performs its pending action. `flag` settles what the
    /// state leaves open: whether a poll notices a stop signal that is
    /// out, and whether a send gets through once the run is over.
    Work { index: int, flag: bool },
    /// The orchestrator performs its pending action. `timeout` says
    /// whether a poll of an empty control channel times out.
    Orchestrate { timeout: bool },
}

/// The pool before anything has run: one fresh worker per chunk, empty
/// channels, and an orchestrator for as many workers as there are chunks.
pub open spec fn pool_init(chunks: Seq<Seq<PairView>>, poll_budget: nat) -> Pool {
    Pool {
        workers: Seq::new(chunks.len(), |i: int| worker_init(chunks[i])),
        control: Seq::empty(),
        results: Seq::empty(),
        stop: false,
        orch: orch_init(chunks.len(), poll_budget),
    }
}

/// Whether every worker has finished.
pub open spec fn all_finished(workers: Seq<WorkerView>) -> bool {
    forall|i: int| 0 <= i < workers.len() ==> (#[trigger] workers[i]).phase is Finished
}

/// Whether a send gets through: always while the orchestrator still holds
/// the receiving ends, and as the schedule says once the run is over.
pub open spec fn delivered(p: Pool, flag: bool) -> bool {
    !(p.orch.phase is Done) || flag
}

/// What worker `w` is told when it performs its pending action in pool
/// `p`. A poll can notice the stop signal only if it is out.
pub open spec fn work_event(
    p: Pool,
    oracle: spec_fn(PairView) -> OutcomeView,
    w: WorkerView,
    flag: bool,
) -> EventView {
    match w.phase {
        PhaseView::Polling => EventView::Polled(
            if p.stop && flag {
                Some(ThreadMessage::Kill)
            } else {
                None
            },
        ),
        PhaseView::Probing => EventView::Probed(oracle(w.chunk[w.next as int])),
        _ => EventView::Sent(delivered(p, flag)),
    }
}

/// The pool after worker `index` has performed its pending action.
pub open spec fn pool_work(
    p: Pool,
    oracle: spec_fn(PairView) -> OutcomeView,
    index: int,
    flag: bool,
) -> Pool {
    let w = p.workers[index];
    let sent = delivered(p, flag);
    Pool {
        workers: p.workers.update(index, worker_next(w, work_event(p, oracle, w, flag))),
        control: if sent && w.phase is Announcing {
            p.control.push(ThreadMessage::Data)
        } else if sent && w.phase is Reporting {
            p.control.push(ThreadMessage::Waiting)
        } else {
            p.control
        },
        results: if sent && w.phase is Publishing {
            p.results.push(w.phase->Publishing_0)
        } else {
            p.results
        },
        stop: p.stop,
        orch: p.orch,
    }
}

/// What the orchestrator is told when it performs its pending action in
/// pool `p`, or `None` while that action is still blocked. A signal that is
/// waiting is read before any timeout; the loss of the workers is noticed
/// only when all have finished and the channel is empty; the join returns
/// only when all have finished.
pub open spec fn orch_event(p: Pool, timeout: bool) -> Option<OrchEventView> {
    match p.orch.phase {
        OrchestratorPhase::Dispatching => Some(OrchEventView::Dispatched),
        OrchestratorPhase::Waiting => if p.control.len() > 0 {
            Some(OrchEventView::Control(p.control[0]))
        } else if timeout {
            Some(OrchEventView::TimedOut)
        } else if all_finished(p.workers) {
            Some(OrchEventView::Disconnected)
        } else {
            None
        },
        OrchestratorPhase::Receiving => Some(
            OrchEventView::Payload(
                if p.results.len() > 0 {
                    Some(p.results[0])
                } else {
                    None
                },
            ),
        ),
        OrchestratorPhase::Stopping => Some(OrchEventView::StopSent),
        OrchestratorPhase::Joining => if all_finished(p.workers) {
            Some(OrchEventView::Joined)
        } else {
            None
        },
        OrchestratorPhase::Done => None,
    }
}

/// The pool after the orchestrator has performed its pending action.
pub open spec fn pool_orchestrate(p: Pool, timeout: bool) -> Pool {
    match orch_event(p, timeout) {
        None => p,
        Some(event) => Pool {
            workers: p.workers,
            control: if p.orch.phase is Waiting && p.control.len() > 0 {
                p.control.drop_first()
            } else {
                p.control
            },
            results: if p.orch.phase is Receiving && p.results.len() > 0 {
                p.results.drop_first()
            } else {
                p.results
            },
            stop: p.stop || p.orch.phase is Stopping,
            orch: orch_next(p.orch, event),
        },
    }
}

/// The pool after one move. A move of a worker that does not exist changes
/// nothing.
pub open spec fn pool_step(p: Pool, oracle: spec_fn(PairView) -> OutcomeView, m: Move) -> Pool {
    match m {
        Move::Work { index, flag } => if 0 <= index < p.workers.len() {
            pool_work(p, oracle, index, flag)
        } else {
            p
        },
        Move::Orchestrate { timeout } => pool_orchestrate(p, timeout),
    }
}

/// The pool after a schedule.
pub open spec fn pool_run(p: Pool, oracle: spec_fn(PairView) -> OutcomeView, moves: Seq<Move>)
    -> Pool
    decreases moves.len(),
{
    if moves.len() == 0 {
        p
    } else {
        pool_step(pool_run(p, oracle, moves.drop_last()), oracle, moves.last())
    }
}

/// Whether `data` is the payload of the first successful probe of some
/// chunk.
pub open spec fn is_chunk_hit(
    chunks: Seq<Seq<PairView>>,
    oracle: spec_fn(PairView) -> OutcomeView,
    data: KeyDataView,
) -> bool {
    exists|i: int| 0 <= i < chunks.len() && #[trigger] chunk_result(chunks[i], oracle) == Some(data)
}

/// Whether some chunk holds a pair whose probe succeeds.
pub open spec fn any_hit(chunks: Seq<Seq<PairView>>, oracle: spec_fn(PairView) -> OutcomeView)
    -> bool {
    exists|i: int| 0 <= i < chunks.len() && (#[trigger] chunk_result(chunks[i], oracle)) is Some
}

/// Whether a `Data` signal is in flight.
pub open spec fn holds_data(control: Seq<ThreadMessage>) -> bool {
    exists|k: int| 0 <= k < control.len() && #[trigger] control[k] == ThreadMessage::Data
}

/// What holds of one worker at every moment: it is well formed and on its
/// own chunk, every pair before the cursor was probed and failed, and what
/// it is about to send matches what the probe of the pair under the cursor
/// returned.
pub open spec fn worker_ok(
    w: WorkerView,
    chunk: Seq<PairView>,
    oracle: spec_fn(PairView) -> OutcomeView,
) -> bool {
    &&& worker_wf(w)
    &&& w.chunk == chunk
    &&& forall|j: int| 0 <= j < w.next ==> #[trigger] rejected(chunk, oracle, j)
    &&& w.phase is Reporting ==> rejected(chunk, oracle, w.next as int)
    &&& w.phase is Announcing ==> !rejected(chunk, oracle, w.next as int)
    &&& w.phase is Publishing ==> oracle(chunk[w.next as int]) == OutcomeView::Success(
        w.phase->Publishing_0,
    )
}

/// What holds of the pool at every moment of every schedule.
pub open spec fn pool_inv(
    p: Pool,
    chunks: Seq<Seq<PairView>>,
    oracle: spec_fn(PairView) -> OutcomeView,
) -> bool {
    let early = phase_rank(p.orch.phase) <= 2;
    &&& p.workers.len() == chunks.len()
    &&& p.orch.threads == chunks.len()
    &&& chunks.len() >= 2
    &&& forall|i: int| 0 <= i < chunks.len() ==> worker_ok(#[trigger] p.workers[i], chunks[i], oracle)
    &&& forall|k: int| 0 <= k < p.results.len() ==> is_chunk_hit(chunks, oracle, #[trigger] p.results[k])
    &&& p.orch.result is Some ==> is_chunk_hit(chunks, oracle, p.orch.result->0)
    &&& early ==> !p.stop && p.orch.result is None && !p.orch.gave_up
    &&& early && (holds_data(p.control) || p.orch.phase is Receiving) ==> p.results.len() >= 1
    &&& forall|i: int|
        early && 0 <= i < chunks.len() && (#[trigger] p.workers[i]).phase is Announcing
            ==> p.results.len() >= 1
    &&& forall|i: int|
        early && 0 <= i < chunks.len() && (#[trigger] p.workers[i]).phase is Finished
            && p.workers[i].next < chunks[i].len() ==> !rejected(
            chunks[i],
            oracle,
            p.workers[i].next as int,
        ) && (p.orch.phase is Receiving || holds_data(p.control))
    &&& !early && !p.orch.gave_up && any_hit(chunks, oracle) ==> p.orch.result is Some
    &&& p.orch.gave_up ==> p.orch.result is None
}

/// A worker that is `worker_ok` stays so through any step that the pool
/// lets it take.
proof fn lemma_worker_ok_step(
    p: Pool,
    oracle: spec_fn(PairView) -> OutcomeView,
    w: WorkerView,
    flag: bool,
)
    requires
        worker_ok(w, w.chunk, oracle),
    ensures
        worker_ok(worker_next(w, work_event(p, oracle, w, flag)), w.chunk, oracle),
{
    lemma_worker_next_wf(w, work_event(p, oracle, w, flag));
}

/// A worker in state `w` that publishes `data` publishes the chunk's first
/// hit.
proof fn lemma_published_is_hit(
    chunks: Seq<Seq<PairView>>,
    oracle: spec_fn(PairView) -> OutcomeView,
    i: int,
    w: WorkerView,
)
    requires
        0 <= i < chunks.len(),
        worker_ok(w, chunks[i], oracle),
        w.phase is Publishing,
    ensures
        is_chunk_hit(chunks, oracle, w.phase->Publishing_0),
{
    lemma_first_hit_at(chunks[i], oracle, 0, w.next);
    assert(chunk_result(chunks[i], oracle) == Some(w.phase->Publishing_0));
}

/// The invariant holds before the first move.
proof fn lemma_init_inv(
    chunks: Seq<Seq<PairView>>,
    poll_budget: nat,
    oracle: spec_fn(PairView) -> OutcomeView,
)
    requires
        chunks.len() >= 2,
    ensures
        pool_inv(pool_init(chunks, poll_budget), chunks, oracle),
{
    let p = pool_init(chunks, poll_budget);
    assert(!holds_data(p.control));
}

/// A worker's move keeps the invariant.
proof fn lemma_work_inv(
    p: Pool,
    chunks: Seq<Seq<PairView>>,
    oracle: spec_fn(PairView) -> OutcomeView,
    index: int,
    flag: bool,
)
    requires
        pool_inv(p, chunks, oracle),
        0 <= index < p.workers.len(),
    ensures
        pool_inv(pool_work(p, oracle, index, flag), chunks, oracle),
{
    let q = pool_work(p, oracle, index, flag);
    let w = p.workers[index];
    let w2 = q.workers[index];
    let early = phase_rank(p.orch.phase) <= 2;
    lemma_worker_ok_step(p, oracle, w, flag);
    assert forall|i: int| 0 <= i < chunks.len() implies worker_ok(
        #[trigger] q.workers[i],
        chunks[i],
        oracle,
    ) by {
        if i != index {
            assert(q.workers[i] == p.workers[i]);
        }
    }
    assert forall|k: int| 0 <= k < q.results.len() implies is_chunk_hit(
        chunks,
        oracle,
        #[trigger] q.results[k],
    ) by {
        if k < p.results.len() {
            assert(q.results[k] == p.results[k]);
        } else {
            lemma_published_is_hit(chunks, oracle, index, w);
        }
    }
    if holds_data(p.control) {
        let k = choose|k: int| 0 <= k < p.control.len() && #[trigger] p.control[k] == ThreadMessage::Data;
        assert(q.control[k] == ThreadMessage::Data);
        assert(holds_data(q.control));
    }
    if early && w.phase is Announcing {
        assert(q.control[p.control.len() as int] == ThreadMessage::Data);
        assert(holds_data(q.control));
    }
    if early && holds_data(q.control) {
        let k = choose|k: int| 0 <= k < q.control.len() && #[trigger] q.control[k] == ThreadMessage::Data;
        if k < p.control.len() {
            assert(p.control[k] == ThreadMessage::Data);
            assert(holds_data(p.control));
        } else {
            assert(w.phase is Announcing);
        }
        assert(q.results.len() >= 1);
    }
    assert forall|i: int|
        early && 0 <= i < chunks.len() && (#[trigger] q.workers[i]).phase is Announcing
            implies q.results.len() >= 1 by {
        if i != index {
            assert(q.workers[i] == p.workers[i]);
        }
    }
    assert forall|i: int|
        early && 0 <= i < chunks.len() && (#[trigger] q.workers[i]).phase is Finished
            && q.workers[i].next < chunks[i].len() implies !rejected(
        chunks[i],
        oracle,
        q.workers[i].next as int,
    ) && (q.orch.phase is Receiving || holds_data(q.control)) by {
        if i != index {
            assert(q.workers[i] == p.workers[i]);
        }
    }
}

/// The orchestrator's move keeps the invariant.
proof fn lemma_orchestrate_inv(
    p: Pool,
    chunks: Seq<Seq<PairView>>,
    oracle: spec_fn(PairView) -> OutcomeView,
    timeout: bool,
)
    requires
        pool_inv(p, chunks, oracle),
    ensures
        pool_inv(pool_orchestrate(p, timeout), chunks, oracle),
{
    let q = pool_orchestrate(p, timeout);
    let early = phase_rank(q.orch.phase) <= 2;
    if orch_event(p, timeout) is Some {
        assert forall|k: int| 0 <= k < q.results.len() implies is_chunk_hit(
            chunks,
            oracle,
            #[trigger] q.results[k],
        ) by {
            if p.orch.phase is Receiving && p.results.len() > 0 {
                assert(q.results[k] == p.results[k + 1]);
            }
        }
        if p.orch.phase is Receiving {
            assert(p.results.len() >= 1);
            assert(is_chunk_hit(chunks, oracle, p.results[0]));
        }
        if p.orch.phase is Waiting && p.control.len() > 0 {
            if holds_data(q.control) {
                let k = choose|k: int|
                    0 <= k < q.control.len() && #[trigger] q.control[k] == ThreadMessage::Data;
                assert(p.control[k + 1] == ThreadMessage::Data);
                assert(holds_data(p.control));
            }
            if p.control[0] != ThreadMessage::Data && holds_data(p.control) {
                let k = choose|k: int|
                    0 <= k < p.control.len() && #[trigger] p.control[k] == ThreadMessage::Data;
                assert(q.control[k - 1] == ThreadMessage::Data);
                assert(holds_data(q.control));
            }
            if p.control[0] == ThreadMessage::Data {
                assert(holds_data(p.control));
            }
        }
        if p.orch.phase is Waiting && p.control.len() == 0 && !timeout {
            assert(!holds_data(p.control));
            if any_hit(chunks, oracle) {
                let i = choose|i: int|
                    0 <= i < chunks.len() && (#[trigger] chunk_result(chunks[i], oracle)) is Some;
                lemma_first_hit(chunks[i], oracle, 0);
                let w = p.workers[i];
                assert(worker_ok(w, chunks[i], oracle));
                assert(w.phase is Finished);
                assert(w.next == chunks[i].len());
                assert(false);
            }
        }
    }
}

/// Every move keeps the invariant.
proof fn lemma_step_inv(
    p: Pool,
    chunks: Seq<Seq<PairView>>,
    oracle: spec_fn(PairView) -> OutcomeView,
    m: Move,
)
    requires
        pool_inv(p, chunks, oracle),
    ensures
        pool_inv(pool_step(p, oracle, m), chunks, oracle),
{
    match m {
        Move::Work { index, flag } => {
            if 0 <= index < p.workers.len() {
                lemma_work_inv(p, chunks, oracle, index, flag);
            }
        },
        Move::Orchestrate { timeout } => {
            lemma_orchestrate_inv(p, chunks, oracle, timeout);
        },
    }
}

/// The invariant holds after every schedule.
pub proof fn lemma_run_inv(
    chunks: Seq<Seq<PairView>>,
    poll_budget: nat,
    oracle: spec_fn(PairView) -> OutcomeView,
    moves: Seq<Move>,
)
    requires
        chunks.len() >= 2,
    ensures
        pool_inv(pool_run(pool_init(chunks, poll_budget), oracle, moves), chunks, oracle),
    decreases moves.len(),
{
    if moves.len() == 0 {
        lemma_init_inv(chunks, poll_budget, oracle);
    } else {
        lemma_run_inv(chunks, poll_budget, oracle, moves.drop_last());
        lemma_step_inv(
            pool_run(pool_init(chunks, poll_budget), oracle, moves.drop_last()),
            chunks,
            oracle,
            moves.last(),
        );
    }
}

/// Whatever the schedule, a payload that the orchestrator ends up with is
/// the first success, in chunk order, of one of the chunks.
pub proof fn lemma_result_is_chunk_hit(
    chunks: Seq<Seq<PairView>>,
    poll_budget: nat,
    oracle: spec_fn(PairView) -> OutcomeView,
    moves: Seq<Move>,
)
    requires
        chunks.len() >= 2,
    ensures
        ({
            let end = pool_run(pool_init(chunks, poll_budget), oracle, moves);
            end.orch.result is Some ==> is_chunk_hit(chunks, oracle, end.orch.result->0)
        }),
{
    lemma_run_inv(chunks, poll_budget, oracle, moves);
}

/// A signal never comes without its payload: whenever the orchestrator is
/// about to read the result channel, under any schedule, a payload is
/// there.
pub proof fn lemma_payload_precedes_signal(
    chunks: Seq<Seq<PairView>>,
    poll_budget: nat,
    oracle: spec_fn(PairView) -> OutcomeView,
    moves: Seq<Move>,
)
    requires
        chunks.len() >= 2,
    ensures
        ({
            let end = pool_run(pool_init(chunks, poll_budget), oracle, moves);
            end.orch.phase is Receiving ==> end.results.len() >= 1
        }),
{
    lemma_run_inv(chunks, poll_budget, oracle, moves);
}

/// If every probe fails, the result is empty after every schedule.
pub proof fn lemma_no_success_no_result(
    chunks: Seq<Seq<PairView>>,
    poll_budget: nat,
    oracle: spec_fn(PairView) -> OutcomeView,
    moves: Seq<Move>,
)
    requires
        chunks.len() >= 2,
        forall|i: int, j: int|
            0 <= i < chunks.len() && 0 <= j < chunks[i].len() ==> #[trigger] rejected(
                chunks[i],
                oracle,
                j,
            ),
    ensures
        pool_run(pool_init(chunks, poll_budget), oracle, moves).orch.result is None,
{
    let end = pool_run(pool_init(chunks, poll_budget), oracle, moves);
    lemma_run_inv(chunks, poll_budget, oracle, moves);
    if end.orch.result is Some {
        let i = choose|i: int|
            0 <= i < chunks.len() && #[trigger] chunk_result(chunks[i], oracle) == Some(
                end.orch.result->0,
            );
        lemma_first_hit(chunks[i], oracle, 0);
        let k = first_hit(chunks[i], oracle, 0)->0;
        assert(rejected(chunks[i], oracle, k as int));
    }
}

/// If some probe succeeds, a run that has stopped waiting without running
/// out of polls holds a result, whatever the schedule was.
pub proof fn lemma_success_is_reported(
    chunks: Seq<Seq<PairView>>,
    poll_budget: nat,
    oracle: spec_fn(PairView) -> OutcomeView,
    moves: Seq<Move>,
    i: int,
    j: int,
)
    requires
        chunks.len() >= 2,
        0 <= i < chunks.len(),
        0 <= j < chunks[i].len(),
        !rejected(chunks[i], oracle, j),
        phase_rank(pool_run(pool_init(chunks, poll_budget), oracle, moves).orch.phase) >= 3,
        !pool_run(pool_init(chunks, poll_budget), oracle, moves).orch.gave_up,
    ensures
        pool_run(pool_init(chunks, poll_budget), oracle, moves).orch.result is Some,
{
    lemma_run_inv(chunks, poll_budget, oracle, moves);
    lemma_first_hit(chunks[i], oracle, 0);
    assert(chunk_result(chunks[i], oracle) is Some);
    assert(any_hit(chunks, oracle));
}

/// A run that gave up waiting holds no result, whatever the workers found
/// in the meantime.
pub proof fn lemma_gave_up_is_empty(
    chunks: Seq<Seq<PairView>>,
    poll_budget: nat,
    oracle: spec_fn(PairView) -> OutcomeView,
    moves: Seq<Move>,
)
    requires
        chunks.len() >= 2,
        pool_run(pool_init(chunks, poll_budget), oracle, moves).orch.gave_up,
    ensures
        pool_run(pool_init(chunks, poll_budget), oracle, moves).orch.result is None,
{
    lemma_run_inv(chunks, poll_budget, oracle, moves);
}

/// Whether the chunks do not compete: those that hold a success all report
/// the same payload.
pub open spec fn chunks_agree(chunks: Seq<Seq<PairView>>, oracle: spec_fn(PairView) -> OutcomeView)
    -> bool {
    forall|i: int, j: int|
        0 <= i < chunks.len() && 0 <= j < chunks.len() && (#[trigger] chunk_result(
            chunks[i],
            oracle,
        )) is Some && (#[trigger] chunk_result(chunks[j], oracle)) is Some ==> chunk_result(
            chunks[i],
            oracle,
        ) == chunk_result(chunks[j], oracle)
}

/// Two runs on the same chunks with the same oracle agree on the result,
/// whatever their schedules, once both have stopped waiting, provided that
/// both gave up waiting or neither did, and that in the latter case the
/// chunks do not compete.
pub proof fn lemma_runs_agree(
    chunks: Seq<Seq<PairView>>,
    poll_budget: nat,
    oracle: spec_fn(PairView) -> OutcomeView,
    first: Seq<Move>,
    second: Seq<Move>,
)
    requires
        chunks.len() >= 2,
        phase_rank(pool_run(pool_init(chunks, poll_budget), oracle, first).orch.phase) >= 3,
        phase_rank(pool_run(pool_init(chunks, poll_budget), oracle, second).orch.phase) >= 3,
        pool_run(pool_init(chunks, poll_budget), oracle, first).orch.gave_up == pool_run(
            pool_init(chunks, poll_budget),
            oracle,
            second,
        ).orch.gave_up,
        !pool_run(pool_init(chunks, poll_budget), oracle, first).orch.gave_up ==> chunks_agree(
            chunks,
            oracle,
        ),
    ensures
        pool_run(pool_init(chunks, poll_budget), oracle, first).orch.result == pool_run(
            pool_init(chunks, poll_budget),
            oracle,
            second,
        ).orch.result,
{
    let a = pool_run(pool_init(chunks, poll_budget), oracle, first).orch.result;
    let b = pool_run(pool_init(chunks, poll_budget), oracle, second).orch.result;
    lemma_run_inv(chunks, poll_budget, oracle, first);
    lemma_run_inv(chunks, poll_budget, oracle, second);
    if a is Some {
        let i = choose|i: int|
            0 <= i < chunks.len() && #[trigger] chunk_result(chunks[i], oracle) == Some(a->0);
        assert(any_hit(chunks, oracle));
        let j = choose|j: int|
            0 <= j < chunks.len() && #[trigger] chunk_result(chunks[j], oracle) == Some(b->0);
    } else if b is Some {
        let j = choose|j: int|
            0 <= j < chunks.len() && #[trigger] chunk_result(chunks[j], oracle) == Some(b->0);
        assert(any_hit(chunks, oracle));
    }
}

/// Where the probes succeed for one pair only, that pair is what a run
/// reports: on the inline path always, and in a pool of any size, under
/// any schedule and wherever the pair lies in the credential space, once
/// the run has stopped waiting without running out of polls. A run that
/// ran out of polls reports nothing.
pub proof fn lemma_designated_pair_wins(
    space: Seq<PairView>,
    threads: nat,
    poll_budget: nat,
    oracle: spec_fn(PairView) -> OutcomeView,
    target: int,
    moves: Seq<Move>,
)
    requires
        threads >= 2,
        0 <= target < space.len(),
        forall|k: int|
            0 <= k < space.len() ==> (#[trigger] rejected(space, oracle, k) <==> space[k]
                != space[target]),
    ensures
        inline_result(worker_init(space), oracle) == Some(oracle(space[target])->Success_0),
        ({
            let end = pool_run(pool_init(chunks_of(space, threads), poll_budget), oracle, moves);
            &&& end.orch.result is Some ==> end.orch.result == Some(
                oracle(space[target])->Success_0,
            )
            &&& phase_rank(end.orch.phase) >= 3 && !end.orch.gave_up ==> end.orch.result is Some
            &&& end.orch.gave_up ==> end.orch.result is None
        }),
{
    let wanted = oracle(space[target])->Success_0;
    assert(!rejected(space, oracle, target));
    lemma_inline_reports_first_hit(space, oracle);
    lemma_first_hit(space, oracle, 0);
    let chunks = chunks_of(space, threads);
    let end = pool_run(pool_init(chunks, poll_budget), oracle, moves);
    lemma_run_inv(chunks, poll_budget, oracle, moves);
    if end.orch.result is Some {
        let i = choose|i: int|
            0 <= i < chunks.len() && #[trigger] chunk_result(chunks[i], oracle) == Some(
                end.orch.result->0,
            );
        lemma_first_hit(chunks[i], oracle, 0);
        lemma_chunk_bounds(space.len(), threads, i);
        let k = first_hit(chunks[i], oracle, 0)->0 as int;
        let at = chunk_start(space.len(), threads, i) + k;
        assert(chunks[i][k] == space[at]);
        assert(!rejected(space, oracle, at));
    }
    if phase_rank(end.orch.phase) >= 3 && !end.orch.gave_up {
        let i = lemma_index_has_chunk(space.len(), threads, target);
        let j = target - chunk_start(space.len(), threads, i);
        lemma_chunk_bounds(space.len(), threads, i);
        assert(chunks[i].len() == chunk_end(space.len(), threads, i) - chunk_start(
            space.len(),
            threads,
            i,
        ));
        assert(chunks[i][j] == space[target]);
        assert(!rejected(chunks[i], oracle, j));
        lemma_success_is_reported(chunks, poll_budget, oracle, moves, i, j);
    }
}

/// A schedule can be run in two parts.
proof fn lemma_run_concat(
    p: Pool,
    oracle: spec_fn(PairView) -> OutcomeView,
    first: Seq<Move>,
    second: Seq<Move>,
)
    ensures
        pool_run(p, oracle, first + second) == pool_run(
            pool_run(p, oracle, first),
            oracle,
            second,
        ),
    decreases second.len(),
{
    if second.len() == 0 {
        assert(first + second =~= first);
    } else {
        lemma_run_concat(p, oracle, first, second.drop_last());
        assert((first + second).drop_last() =~= first + second.drop_last());
        assert((first + second).last() == second.last());
    }
}

/// A schedule that begins with `m` runs from the state after `m`.
proof fn lemma_run_first(
    p: Pool,
    oracle: spec_fn(PairView) -> OutcomeView,
    m: Move,
    rest: Seq<Move>,
)
    ensures
        pool_run(p, oracle, seq![m] + rest) == pool_run(pool_step(p, oracle, m), oracle, rest),
{
    lemma_run_concat(p, oracle, seq![m], rest);
    assert(seq![m].drop_last() =~= Seq::<Move>::empty());
    assert(pool_run(p, oracle, seq![m].drop_last()) == p);
    assert(seq![m].last() == m);
}

/// Whether every worker of a pool is well formed and the orchestrator is
/// one for a pool.
pub open spec fn pool_wf(p: Pool) -> bool {
    &&& p.orch.threads != 1
    &&& forall|i: int| 0 <= i < p.workers.len() ==> worker_wf(#[trigger] p.workers[i])
}

/// A schedule that lets worker `i` run to its end and moves nothing else.
proof fn lemma_finish_worker(p: Pool, oracle: spec_fn(PairView) -> OutcomeView, i: int) -> (moves:
    Seq<Move>)
    requires
        pool_wf(p),
        0 <= i < p.workers.len(),
    ensures
        ({
            let q = pool_run(p, oracle, moves);
            &&& pool_wf(q)
            &&& q.workers.len() == p.workers.len()
            &&& q.workers[i].phase is Finished
            &&& forall|j: int|
                0 <= j < p.workers.len() && j != i ==> #[trigger] q.workers[j] == p.workers[j]
            &&& q.orch == p.orch
            &&& q.stop == p.stop
        }),
    decreases p.workers[i].chunk.len() - p.workers[i].next, phase_distance(p.workers[i].phase),
{
    if p.workers[i].phase is Finished {
        Seq::empty()
    } else {
        let m = Move::Work { index: i, flag: true };
        let w = p.workers[i];
        let after = pool_step(p, oracle, m);
        lemma_worker_next_wf(w, work_event(p, oracle, w, true));
        assert(after.workers[i] == worker_next(w, work_event(p, oracle, w, true)));
        assert forall|j: int| 0 <= j < after.workers.len() implies worker_wf(
            #[trigger] after.workers[j],
        ) by {
            if j != i {
                assert(after.workers[j] == p.workers[j]);
            }
        }
        let rest = lemma_finish_worker(after, oracle, i);
        lemma_run_first(p, oracle, m, rest);
        let q = pool_run(p, oracle, seq![m] + rest);
        assert forall|j: int| 0 <= j < p.workers.len() && j != i implies #[trigger] q.workers[j]
            == p.workers[j] by {
            assert(after.workers[j] == p.workers[j]);
        }
        seq![m] + rest
    }
}

/// A schedule that lets the workers from `k` on run to their ends, one
/// after the other.
proof fn lemma_finish_workers(p: Pool, oracle: spec_fn(PairView) -> OutcomeView, k: int) -> (moves:
    Seq<Move>)
    requires
        pool_wf(p),
        0 <= k <= p.workers.len(),
        forall|j: int| 0 <= j < k ==> (#[trigger] p.workers[j]).phase is Finished,
    ensures
        ({
            let q = pool_run(p, oracle, moves);
            &&& pool_wf(q)
            &&& all_finished(q.workers)
            &&& q.orch == p.orch
        }),
    decreases p.workers.len() - k,
{
    if k == p.workers.len() {
        Seq::empty()
    } else {
        let first = lemma_finish_worker(p, oracle, k);
        let after = pool_run(p, oracle, first);
        assert forall|j: int| 0 <= j < k + 1 implies (#[trigger] after.workers[j]).phase
            is Finished by {
            if j != k {
                assert(after.workers[j] == p.workers[j]);
            }
        }
        let rest = lemma_finish_workers(after, oracle, k + 1);
        lemma_run_concat(p, oracle, first, rest);
        first + rest
    }
}

/// A schedule of the orchestrator alone that ends its wait: it reads what
/// is on the control channel and lets its polls time out.
proof fn lemma_end_wait(p: Pool, oracle: spec_fn(PairView) -> OutcomeView) -> (moves: Seq<Move>)
    requires
        pool_wf(p),
    ensures
        ({
            let q = pool_run(p, oracle, moves);
            &&& pool_wf(q)
            &&& phase_rank(q.orch.phase) >= 4
        }),
    decreases 4 - phase_rank(p.orch.phase), p.control.len() + p.orch.polls_left,
{
    if phase_rank(p.orch.phase) >= 4 {
        Seq::empty()
    } else {
        let m = Move::Orchestrate { timeout: true };
        let after = pool_step(p, oracle, m);
        assert(orch_event(p, true) is Some);
        let rest = lemma_end_wait(after, oracle);
        lemma_run_first(p, oracle, m, rest);
        seq![m] + rest
    }
}

/// No state of a pooled run is a dead end: from every state some schedule
/// takes the run to its end, whether or not any worker has got anywhere.
/// The orchestrator reads what is on the control channel, lets its
/// remaining polls time out, and stops and joins the workers, each of
/// which comes to its end on its own.
pub proof fn lemma_run_can_end(p: Pool, oracle: spec_fn(PairView) -> OutcomeView) -> (moves: Seq<
    Move,
>)
    requires
        pool_wf(p),
    ensures
        pool_run(p, oracle, moves).orch.phase is Done,
{
    let waiting = lemma_end_wait(p, oracle);
    let stopped = pool_run(p, oracle, waiting);
    let working = lemma_finish_workers(stopped, oracle, 0);
    let joined = pool_run(stopped, oracle, working);
    lemma_run_concat(p, oracle, waiting, working);
    let m = Move::Orchestrate { timeout: false };
    lemma_run_concat(p, oracle, waiting + working, seq![m]);
    lemma_run_first(joined, oracle, m, Seq::empty());
    assert(seq![m] + Seq::<Move>::empty() =~= seq![m]);
    assert(pool_run(pool_step(joined, oracle, m), oracle, Seq::empty()) == pool_step(
        joined,
        oracle,
        m,
    ));
    waiting + working + seq![m]
}

/// Every state that a pooled run reaches, under any schedule, can still
/// reach the end of the run.
pub proof fn lemma_reached_state_can_end(
    chunks: Seq<Seq<PairView>>,
    poll_budget: nat,
    oracle: spec_fn(PairView) -> OutcomeView,
    moves: Seq<Move>,
) -> (more: Seq<Move>)
    requires
        chunks.len() >= 2,
    ensures
        pool_run(pool_init(chunks, poll_budget), oracle, moves + more).orch.phase is Done,
{
    lemma_run_inv(chunks, poll_budget, oracle, moves);
    let reached = pool_run(pool_init(chunks, poll_budget), oracle, moves);
    let more = lemma_run_can_end(reached, oracle);
    lemma_run_concat(pool_init(chunks, poll_budget), oracle, moves, more);
    more
}

} // verus!
