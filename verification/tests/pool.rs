use std::collections::VecDeque;

use sshkey_probe::orchestrator::{
    Orchestrator, OrchestratorAction, OrchestratorEvent, OrchestratorState, DEFAULT_POLL_BUDGET,
};
use sshkey_probe::probe::{conclude_probe, ConnectError, ConnectErrorKind, ConnectRequest};
use sshkey_probe::report::assemble_report;
use sshkey_probe::space::{build_credential_space, partition};
use sshkey_probe::types::{
    Arguments, CredentialPair, KeyOutput, PrivateKeyData, ProbeOutcome, ThreadMessage,
};
use sshkey_probe::worker::{Worker, WorkerAction, WorkerEvent};

/// Collaborators that answer at once: the key of a password is a fixed
/// text, and the server accepts what `accepts` says.
struct Fakes {
    accepts: fn(&str, &str) -> bool,
    probed: Vec<(String, String)>,
}

impl Fakes {
    fn new(accepts: fn(&str, &str) -> bool) -> Fakes {
        Fakes { accepts, probed: Vec::new() }
    }

    fn probe(&mut self, pair: &CredentialPair) -> ProbeOutcome {
        self.probed.push((pair.username.clone(), pair.password.clone()));
        let request = ConnectRequest {
            host: "127.0.0.1:22".to_string(),
            username: pair.username.clone(),
            password: pair.password.clone(),
            private_key: format!("key-of-{}", pair.password),
        };
        let reply = if (self.accepts)(&pair.username, &pair.password) {
            Ok(())
        } else {
            Err(ConnectError { kind: ConnectErrorKind::Auth, reason: "Auth error".to_string() })
        };
        conclude_probe(request, reply)
    }
}

/// A small deterministic generator that picks who moves next.
struct Schedule(u64);

impl Schedule {
    fn pick(&mut self, bound: usize) -> usize {
        self.0 = self.0.wrapping_mul(6364136223846793005).wrapping_add(1442695040888963407);
        ((self.0 >> 33) as usize) % bound
    }
}

fn run_inline(space: Vec<CredentialPair>, fakes: &mut Fakes) -> Option<PrivateKeyData> {
    let mut worker = Worker::new(space);
    loop {
        match worker.action() {
            WorkerAction::PollStop => worker.step(WorkerEvent::Polled(None)),
            WorkerAction::Probe(pair) => {
                let outcome = fakes.probe(&pair);
                worker.step(WorkerEvent::Probed(outcome));
            }
            WorkerAction::SendResult(data) => return Some(data),
            WorkerAction::SendControl(_) => worker.step(WorkerEvent::Sent(true)),
            WorkerAction::Exit => return None,
        }
    }
}

struct Channels {
    control: VecDeque<ThreadMessage>,
    results: VecDeque<PrivateKeyData>,
    stop: bool,
    open: bool,
}

fn move_worker(worker: &mut Worker, channels: &mut Channels, fakes: &mut Fakes) {
    match worker.action() {
        WorkerAction::PollStop => {
            let seen = if channels.stop { Some(ThreadMessage::Kill) } else { None };
            worker.step(WorkerEvent::Polled(seen));
        }
        WorkerAction::Probe(pair) => {
            let outcome = fakes.probe(&pair);
            worker.step(WorkerEvent::Probed(outcome));
        }
        WorkerAction::SendResult(data) => {
            if channels.open {
                channels.results.push_back(data);
            }
            worker.step(WorkerEvent::Sent(channels.open));
        }
        WorkerAction::SendControl(message) => {
            if channels.open {
                channels.control.push_back(message);
            }
            worker.step(WorkerEvent::Sent(channels.open));
        }
        WorkerAction::Exit => {}
    }
}

/// Runs the whole pipeline with the fakes. `stuck` names a worker that
/// does not move before the stop signal is out.
fn run(
    users: &[&str],
    passwords: &[&str],
    threads: usize,
    fakes: &mut Fakes,
    seed: u64,
    stuck: Option<usize>,
) -> (Option<PrivateKeyData>, bool) {
    let users: Vec<String> = users.iter().map(|s| s.to_string()).collect();
    let passwords: Vec<String> = passwords.iter().map(|s| s.to_string()).collect();
    let space = build_credential_space(&users, &passwords);
    let mut orchestrator = Orchestrator::new(threads, DEFAULT_POLL_BUDGET);
    let mut schedule = Schedule(seed);
    let mut workers: Vec<Worker> = Vec::new();
    let mut channels =
        Channels { control: VecDeque::new(), results: VecDeque::new(), stop: false, open: true };
    let mut steps = 0usize;
    loop {
        steps += 1;
        assert!(steps < 1_000_000, "the run does not end");
        match orchestrator.action() {
            OrchestratorAction::RunInline => {
                let found = run_inline(space.clone(), fakes);
                orchestrator.step(OrchestratorEvent::InlineFinished(found));
                continue;
            }
            OrchestratorAction::SpawnWorkers => {
                for chunk in partition(&space, orchestrator.threads()) {
                    workers.push(Worker::new(chunk));
                }
                orchestrator.step(OrchestratorEvent::Dispatched);
                continue;
            }
            OrchestratorAction::Finish => {
                assert_eq!(orchestrator.state(), OrchestratorState::Done);
                let gave_up = orchestrator.gave_up();
                return (orchestrator.into_result(), gave_up);
            }
            _ => {}
        }
        let turn = schedule.pick(workers.len() + 1);
        if turn < workers.len() {
            if stuck == Some(turn) && !channels.stop {
                continue;
            }
            move_worker(&mut workers[turn], &mut channels, fakes);
            continue;
        }
        let all_gone = workers.iter().all(|w| w.is_finished());
        let moving = workers
            .iter()
            .enumerate()
            .any(|(i, w)| !w.is_finished() && stuck != Some(i));
        match orchestrator.action() {
            OrchestratorAction::AwaitControl => {
                if let Some(message) = channels.control.pop_front() {
                    orchestrator.step(OrchestratorEvent::Control(message));
                } else if all_gone {
                    orchestrator.step(OrchestratorEvent::Disconnected);
                } else if !moving {
                    orchestrator.step(OrchestratorEvent::TimedOut);
                }
            }
            OrchestratorAction::TakeResult => {
                let payload = channels.results.pop_front();
                orchestrator.step(OrchestratorEvent::Payload(payload));
            }
            OrchestratorAction::BroadcastStop => {
                channels.stop = true;
                orchestrator.step(OrchestratorEvent::StopSent);
            }
            OrchestratorAction::JoinWorkers => {
                if all_gone {
                    channels.open = false;
                    orchestrator.step(OrchestratorEvent::Joined);
                }
            }
            _ => {}
        }
    }
}

fn only_bob_pw2(user: &str, password: &str) -> bool {
    user == "bob" && password == "pw2"
}

fn nobody(_user: &str, _password: &str) -> bool {
    false
}

fn anyone_with_pw2(_user: &str, password: &str) -> bool {
    password == "pw2"
}

fn only_u3_s1(user: &str, password: &str) -> bool {
    user == "u3" && password == "s1"
}

const USERS: [&str; 5] = ["u0", "u1", "u2", "u3", "u4"];
const PASSWORDS: [&str; 3] = ["s0", "s1", "s2"];

#[test]
fn designated_pair_wins_for_every_thread_count() {
    for threads in [1usize, 2, 4, 8] {
        for seed in 0..20u64 {
            let mut fakes = Fakes::new(only_u3_s1);
            let (found, gave_up) = run(&USERS, &PASSWORDS, threads, &mut fakes, seed, None);
            assert!(!gave_up);
            let found = found.expect("the designated pair");
            assert_eq!(found.user, "u3");
            assert_eq!(found.password, "s1");
            assert_eq!(found.private_key, "key-of-s1");
        }
    }
}

fn accepts_pair_number(index: usize) -> fn(&str, &str) -> bool {
    const TABLE: [fn(&str, &str) -> bool; 6] = [
        |u, p| u == "a" && p == "x",
        |u, p| u == "a" && p == "y",
        |u, p| u == "b" && p == "x",
        |u, p| u == "b" && p == "y",
        |u, p| u == "c" && p == "x",
        |u, p| u == "c" && p == "y",
    ];
    TABLE[index]
}

#[test]
fn designated_pair_wins_wherever_it_lies() {
    let users = ["a", "b", "c"];
    let passwords = ["x", "y"];
    for index in 0..6usize {
        for threads in [1usize, 2, 4, 8] {
            for seed in 0..10u64 {
                let mut fakes = Fakes::new(accepts_pair_number(index));
                let (found, _) = run(&users, &passwords, threads, &mut fakes, seed, None);
                let found = found.expect("the designated pair");
                assert_eq!(found.user, users[index / 2]);
                assert_eq!(found.password, passwords[index % 2]);
            }
        }
    }
}

#[test]
fn no_success_gives_empty_result() {
    for threads in [1usize, 2, 3, 4, 8, 16] {
        for seed in 0..10u64 {
            let mut fakes = Fakes::new(nobody);
            let (found, gave_up) = run(&USERS, &PASSWORDS, threads, &mut fakes, seed, None);
            assert!(found.is_none());
            assert!(!gave_up);
            let mut probed = fakes.probed.clone();
            probed.sort();
            assert_eq!(probed.len(), 15, "every pair is probed once");
            probed.dedup();
            assert_eq!(probed.len(), 15);
        }
    }
}

#[test]
fn empty_lists_end_at_once_without_success() {
    for threads in [1usize, 2, 4] {
        let mut fakes = Fakes::new(anyone_with_pw2);
        let (found, gave_up) = run(&[], &["pw2"], threads, &mut fakes, 7, None);
        assert!(found.is_none());
        assert!(!gave_up);
        assert!(fakes.probed.is_empty());
    }
}

fn arguments() -> Arguments {
    Arguments {
        ip_port: "10.0.0.5:22".to_string(),
        usr_wordlist: "lists/users.txt".to_string(),
        pwr_wordlist: "lists/passwords.txt".to_string(),
        output: None,
        key_type: None,
        debug: false,
        error: false,
        no_plantext_passwords: false,
        threads: Some(4),
        cipher: None,
        bits: None,
    }
}

fn same_but_time(a: &KeyOutput, b: &KeyOutput) -> bool {
    a.ip == b.ip
        && a.bits == b.bits
        && a.cipher == b.cipher
        && a.algorithim == b.algorithim
        && a.usr_wordlist == b.usr_wordlist
        && a.pwr_wordlist == b.pwr_wordlist
        && a.data.user == b.data.user
        && a.data.password == b.data.password
        && a.data.private_key == b.data.private_key
}

#[test]
fn two_runs_give_the_same_report() {
    let config = arguments().run_config();
    for threads in [1usize, 2, 4, 8] {
        let mut first_fakes = Fakes::new(only_u3_s1);
        let (first, _) = run(&USERS, &PASSWORDS, threads, &mut first_fakes, 1, None);
        let mut second_fakes = Fakes::new(only_u3_s1);
        let (second, _) = run(&USERS, &PASSWORDS, threads, &mut second_fakes, 99, None);
        let first = assemble_report(&config, "20240101_00-00-00".to_string(), first);
        let second = assemble_report(&config, "20240202_11-11-11".to_string(), second);
        assert!(same_but_time(&first, &second));
        assert_eq!(first.data.user, "u3");
        assert_eq!(first.time, "20240101_00-00-00");
        assert_eq!(second.time, "20240202_11-11-11");
    }
}

#[test]
fn two_inline_runs_agree_with_several_successes() {
    let mut first_fakes = Fakes::new(anyone_with_pw2);
    let (first, _) = run(&["alice", "bob"], &["pw1", "pw2"], 1, &mut first_fakes, 3, None);
    let mut second_fakes = Fakes::new(anyone_with_pw2);
    let (second, _) = run(&["alice", "bob"], &["pw1", "pw2"], 1, &mut second_fakes, 4, None);
    let first = first.expect("a result");
    let second = second.expect("a result");
    assert_eq!((first.user.as_str(), first.password.as_str()), ("alice", "pw2"));
    assert_eq!((second.user.as_str(), second.password.as_str()), ("alice", "pw2"));
}

#[test]
fn stuck_worker_does_not_hold_up_the_run() {
    for threads in [2usize, 4] {
        for stuck in 0..threads {
            let mut fakes = Fakes::new(nobody);
            let (found, gave_up) = run(&USERS, &PASSWORDS, threads, &mut fakes, 5, Some(stuck));
            assert!(found.is_none());
            assert!(gave_up, "the wait ends on the poll budget");
            assert!(fakes.probed.len() < 15, "the stuck worker was stopped before its end");
        }
    }
}

#[test]
fn concrete_scenario_probes_in_order() {
    let mut fakes = Fakes::new(only_bob_pw2);
    let (found, _) = run(&["alice", "bob"], &["pw1", "pw2"], 1, &mut fakes, 0, None);
    let expected: Vec<(String, String)> =
        [("alice", "pw1"), ("alice", "pw2"), ("bob", "pw1"), ("bob", "pw2")]
            .iter()
            .map(|(u, p)| (u.to_string(), p.to_string()))
            .collect();
    assert_eq!(fakes.probed, expected);
    let found = found.expect("a result");
    assert_eq!((found.user.as_str(), found.password.as_str()), ("bob", "pw2"));
}

#[test]
fn concrete_scenario_stops_at_first_success() {
    let mut fakes = Fakes::new(anyone_with_pw2);
    let (found, _) = run(&["alice", "bob"], &["pw1", "pw2"], 1, &mut fakes, 0, None);
    let expected: Vec<(String, String)> = [("alice", "pw1"), ("alice", "pw2")]
        .iter()
        .map(|(u, p)| (u.to_string(), p.to_string()))
        .collect();
    assert_eq!(fakes.probed, expected);
    let found = found.expect("a result");
    assert_eq!((found.user.as_str(), found.password.as_str()), ("alice", "pw2"));
}

#[test]
fn racing_successes_report_one_first_hit_of_a_chunk() {
    for seed in 0..40u64 {
        let mut fakes = Fakes::new(anyone_with_pw2);
        let (found, _) = run(&["alice", "bob"], &["pw1", "pw2"], 2, &mut fakes, seed, None);
        let found = found.expect("a result");
        assert_eq!(found.password, "pw2");
        assert!(found.user == "alice" || found.user == "bob");
    }
}
