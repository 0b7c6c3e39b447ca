use sshkey_probe::orchestrator::{
    Orchestrator, OrchestratorAction, OrchestratorEvent, OrchestratorState, DEFAULT_POLL_BUDGET,
};
use sshkey_probe::types::{CredentialPair, PrivateKeyData, ProbeOutcome, ThreadMessage};
use sshkey_probe::worker::{Worker, WorkerAction, WorkerEvent};

fn chunk(items: &[(&str, &str)]) -> Vec<CredentialPair> {
    items
        .iter()
        .map(|(u, p)| CredentialPair { username: u.to_string(), password: p.to_string() })
        .collect()
}

fn payload(user: &str, password: &str) -> PrivateKeyData {
    PrivateKeyData {
        user: user.to_string(),
        password: password.to_string(),
        private_key: format!("key:{password}"),
    }
}

fn probes(action: &WorkerAction, user: &str, password: &str) -> bool {
    match action {
        WorkerAction::Probe(pair) => pair.username == user && pair.password == password,
        _ => false,
    }
}

#[test]
fn worker_on_empty_chunk_exits_at_once() {
    let worker = Worker::new(Vec::new());
    assert!(matches!(worker.action(), WorkerAction::Exit));
    assert!(worker.is_finished());
    assert_eq!(worker.consumed(), 0);
}

#[test]
fn worker_polls_before_each_probe() {
    let mut worker = Worker::new(chunk(&[("a", "1"), ("b", "2")]));
    assert!(matches!(worker.action(), WorkerAction::PollStop));
    worker.step(WorkerEvent::Polled(None));
    assert!(probes(&worker.action(), "a", "1"));
    worker.step(WorkerEvent::Probed(ProbeOutcome::AuthFailed));
    assert!(matches!(worker.action(), WorkerAction::SendControl(ThreadMessage::Waiting)));
    worker.step(WorkerEvent::Sent(true));
    assert_eq!(worker.consumed(), 1);
    assert!(matches!(worker.action(), WorkerAction::PollStop));
    worker.step(WorkerEvent::Polled(None));
    assert!(probes(&worker.action(), "b", "2"));
    worker.step(WorkerEvent::Probed(ProbeOutcome::TransportError("refused".to_string())));
    worker.step(WorkerEvent::Sent(true));
    assert!(matches!(worker.action(), WorkerAction::Exit));
    assert!(worker.is_finished());
    assert_eq!(worker.consumed(), 2);
}

#[test]
fn worker_sends_payload_before_signal() {
    let mut worker = Worker::new(chunk(&[("a", "1"), ("b", "2")]));
    worker.step(WorkerEvent::Polled(None));
    worker.step(WorkerEvent::Probed(ProbeOutcome::Success(payload("a", "1"))));
    match worker.action() {
        WorkerAction::SendResult(data) => {
            assert_eq!(data.user, "a");
            assert_eq!(data.password, "1");
            assert_eq!(data.private_key, "key:1");
        }
        other => panic!("expected the payload first, got {:?}", other),
    }
    worker.step(WorkerEvent::Sent(true));
    assert!(matches!(worker.action(), WorkerAction::SendControl(ThreadMessage::Data)));
    worker.step(WorkerEvent::Sent(true));
    assert!(matches!(worker.action(), WorkerAction::Exit));
    assert_eq!(worker.consumed(), 0);
}

#[test]
fn worker_stops_on_kill_without_probing() {
    let mut worker = Worker::new(chunk(&[("a", "1"), ("b", "2")]));
    worker.step(WorkerEvent::Polled(Some(ThreadMessage::Kill)));
    assert!(matches!(worker.action(), WorkerAction::Exit));
    assert_eq!(worker.consumed(), 0);
}

#[test]
fn worker_ignores_other_signals_on_the_stop_channel() {
    let mut worker = Worker::new(chunk(&[("a", "1")]));
    worker.step(WorkerEvent::Polled(Some(ThreadMessage::Waiting)));
    assert!(probes(&worker.action(), "a", "1"));
    let mut worker = Worker::new(chunk(&[("a", "1")]));
    worker.step(WorkerEvent::Polled(Some(ThreadMessage::Data)));
    assert!(probes(&worker.action(), "a", "1"));
}

#[test]
fn worker_ends_when_receiver_is_gone() {
    let mut worker = Worker::new(chunk(&[("a", "1"), ("b", "2")]));
    worker.step(WorkerEvent::Polled(None));
    worker.step(WorkerEvent::Probed(ProbeOutcome::AuthFailed));
    worker.step(WorkerEvent::Sent(false));
    assert!(worker.is_finished());

    let mut worker = Worker::new(chunk(&[("a", "1"), ("b", "2")]));
    worker.step(WorkerEvent::Polled(None));
    worker.step(WorkerEvent::Probed(ProbeOutcome::Success(payload("a", "1"))));
    worker.step(WorkerEvent::Sent(false));
    assert!(worker.is_finished());
}

#[test]
fn worker_ignores_events_that_answer_nothing() {
    let mut worker = Worker::new(chunk(&[("a", "1")]));
    worker.step(WorkerEvent::Sent(true));
    worker.step(WorkerEvent::Probed(ProbeOutcome::Success(payload("x", "y"))));
    assert!(matches!(worker.action(), WorkerAction::PollStop));
    worker.step(WorkerEvent::Polled(None));
    worker.step(WorkerEvent::Polled(Some(ThreadMessage::Kill)));
    worker.step(WorkerEvent::Sent(true));
    assert!(probes(&worker.action(), "a", "1"));
    worker.step(WorkerEvent::Probed(ProbeOutcome::AuthFailed));
    worker.step(WorkerEvent::Sent(true));
    assert!(worker.is_finished());
    worker.step(WorkerEvent::Polled(None));
    assert!(worker.is_finished());
    assert_eq!(worker.consumed(), 1);
}

#[test]
fn orchestrator_inline_path() {
    for threads in [0usize, 1] {
        let mut orchestrator = Orchestrator::new(threads, DEFAULT_POLL_BUDGET);
        assert_eq!(orchestrator.threads(), 1);
        assert_eq!(orchestrator.state(), OrchestratorState::Dispatching);
        assert_eq!(orchestrator.action(), OrchestratorAction::RunInline);
        orchestrator.step(OrchestratorEvent::Dispatched);
        assert_eq!(orchestrator.state(), OrchestratorState::Dispatching);
        orchestrator.step(OrchestratorEvent::InlineFinished(Some(payload("a", "1"))));
        assert_eq!(orchestrator.state(), OrchestratorState::Done);
        assert_eq!(orchestrator.action(), OrchestratorAction::Finish);
        let result = orchestrator.into_result().expect("a result");
        assert_eq!(result.user, "a");
    }
}

#[test]
fn orchestrator_pooled_path_with_success() {
    let mut orchestrator = Orchestrator::new(4, DEFAULT_POLL_BUDGET);
    assert_eq!(orchestrator.threads(), 4);
    assert_eq!(orchestrator.action(), OrchestratorAction::SpawnWorkers);
    orchestrator.step(OrchestratorEvent::InlineFinished(Some(payload("x", "y"))));
    assert_eq!(orchestrator.state(), OrchestratorState::Dispatching);
    orchestrator.step(OrchestratorEvent::Dispatched);
    assert_eq!(orchestrator.state(), OrchestratorState::Waiting);
    assert_eq!(orchestrator.action(), OrchestratorAction::AwaitControl);
    orchestrator.step(OrchestratorEvent::Control(ThreadMessage::Waiting));
    orchestrator.step(OrchestratorEvent::Control(ThreadMessage::Kill));
    assert_eq!(orchestrator.action(), OrchestratorAction::AwaitControl);
    orchestrator.step(OrchestratorEvent::Control(ThreadMessage::Data));
    assert_eq!(orchestrator.state(), OrchestratorState::Waiting);
    assert_eq!(orchestrator.action(), OrchestratorAction::TakeResult);
    orchestrator.step(OrchestratorEvent::Payload(Some(payload("bob", "pw2"))));
    assert_eq!(orchestrator.state(), OrchestratorState::Draining);
    assert_eq!(orchestrator.action(), OrchestratorAction::BroadcastStop);
    orchestrator.step(OrchestratorEvent::StopSent);
    assert_eq!(orchestrator.state(), OrchestratorState::Draining);
    assert_eq!(orchestrator.action(), OrchestratorAction::JoinWorkers);
    orchestrator.step(OrchestratorEvent::Joined);
    assert_eq!(orchestrator.state(), OrchestratorState::Done);
    assert!(!orchestrator.gave_up());
    let result = orchestrator.into_result().expect("a result");
    assert_eq!((result.user.as_str(), result.password.as_str()), ("bob", "pw2"));
}

#[test]
fn orchestrator_keeps_first_result() {
    let mut orchestrator = Orchestrator::new(2, DEFAULT_POLL_BUDGET);
    orchestrator.step(OrchestratorEvent::Dispatched);
    orchestrator.step(OrchestratorEvent::Control(ThreadMessage::Data));
    orchestrator.step(OrchestratorEvent::Payload(Some(payload("first", "1"))));
    orchestrator.step(OrchestratorEvent::Control(ThreadMessage::Data));
    orchestrator.step(OrchestratorEvent::Payload(Some(payload("second", "2"))));
    orchestrator.step(OrchestratorEvent::StopSent);
    orchestrator.step(OrchestratorEvent::Payload(Some(payload("third", "3"))));
    orchestrator.step(OrchestratorEvent::Joined);
    orchestrator.step(OrchestratorEvent::Payload(None));
    assert_eq!(orchestrator.state(), OrchestratorState::Done);
    assert_eq!(orchestrator.into_result().expect("a result").user, "first");
}

#[test]
fn orchestrator_gives_up_after_poll_budget() {
    let mut orchestrator = Orchestrator::new(3, DEFAULT_POLL_BUDGET);
    orchestrator.step(OrchestratorEvent::Dispatched);
    for _ in 0..9 {
        orchestrator.step(OrchestratorEvent::TimedOut);
        orchestrator.step(OrchestratorEvent::Control(ThreadMessage::Waiting));
        assert_eq!(orchestrator.state(), OrchestratorState::Waiting);
    }
    orchestrator.step(OrchestratorEvent::TimedOut);
    assert_eq!(orchestrator.state(), OrchestratorState::Draining);
    assert!(orchestrator.gave_up());
    orchestrator.step(OrchestratorEvent::StopSent);
    orchestrator.step(OrchestratorEvent::Joined);
    assert_eq!(orchestrator.state(), OrchestratorState::Done);
    assert!(orchestrator.into_result().is_none());
}

#[test]
fn orchestrator_with_zero_budget_polls_once() {
    let mut orchestrator = Orchestrator::new(2, 0);
    orchestrator.step(OrchestratorEvent::Dispatched);
    assert_eq!(orchestrator.action(), OrchestratorAction::AwaitControl);
    orchestrator.step(OrchestratorEvent::TimedOut);
    assert_eq!(orchestrator.action(), OrchestratorAction::BroadcastStop);
    assert!(orchestrator.gave_up());
}

#[test]
fn orchestrator_drains_when_workers_are_gone() {
    let mut orchestrator = Orchestrator::new(2, DEFAULT_POLL_BUDGET);
    orchestrator.step(OrchestratorEvent::Dispatched);
    orchestrator.step(OrchestratorEvent::Disconnected);
    assert_eq!(orchestrator.state(), OrchestratorState::Draining);
    assert!(!orchestrator.gave_up());
    orchestrator.step(OrchestratorEvent::StopSent);
    orchestrator.step(OrchestratorEvent::Joined);
    assert!(orchestrator.into_result().is_none());
}

#[test]
fn orchestrator_with_missing_payload_ends_empty() {
    let mut orchestrator = Orchestrator::new(2, DEFAULT_POLL_BUDGET);
    orchestrator.step(OrchestratorEvent::Dispatched);
    orchestrator.step(OrchestratorEvent::Control(ThreadMessage::Data));
    orchestrator.step(OrchestratorEvent::Payload(None));
    assert_eq!(orchestrator.action(), OrchestratorAction::BroadcastStop);
    assert!(orchestrator.into_result().is_none());
}
