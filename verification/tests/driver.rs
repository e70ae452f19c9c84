use sudo_ops::account::{sequence_query, AccountId, BlockId};
use sudo_ops::call::{build_set_compute, build_set_storage, AdministrativeCall, LoadKind};
use sudo_ops::driver::{
    Action, BatchPlan, Driver, Event, Failure, FailurePolicy, Outcome, Progress, Stage, Step,
};
use sudo_ops::endpoint::{ConfigurationError, RelayChain};
use sudo_ops::notice::{ErrorKind, Notice, RunError};

const STORAGE: u64 = 1_400_000_000;
const COMPUTE: u64 = 700_000_000;

fn account() -> AccountId {
    AccountId { bytes: [7u8; 32] }
}

fn block(n: u8) -> BlockId {
    BlockId { hash: [n; 32] }
}

fn plan(from: u32, to: u32, storage: Option<u64>, compute: Option<u64>) -> BatchPlan {
    BatchPlan { relay: RelayChain::Versi, from, to, storage, compute, policy: FailurePolicy::AbortRun }
}

struct Trace {
    connected: Vec<u32>,
    fetches: usize,
    submitted: Vec<(u32, AdministrativeCall, u32)>,
    lines: Vec<String>,
    outcome: Outcome,
}

/// Runs a plan to its end. `respond` plays the node: it gets the parachain
/// and the action, and says how the action went.
fn drive(plan: BatchPlan, mut respond: impl FnMut(u32, &Action) -> Event) -> Trace {
    let (mut driver, mut step) = Driver::begin(plan, account()).unwrap();
    let mut trace = Trace {
        connected: Vec::new(),
        fetches: 0,
        submitted: Vec::new(),
        lines: Vec::new(),
        outcome: Outcome::Completed,
    };
    let mut current = plan.from;
    loop {
        for notice in &step.notices {
            trace.lines.push(notice.render());
        }
        match &step.action {
            Action::Connect { id, .. } => {
                current = *id;
                trace.connected.push(*id);
            }
            Action::FetchSequence { query } => {
                assert_eq!(*query, sequence_query(&account()));
                trace.fetches += 1;
            }
            Action::Submit { call, sequence, account: signer } => {
                assert_eq!(*signer, account());
                trace.submitted.push((current, *call, *sequence))
            }
            Action::Finish { .. } => {}
        }
        if let Action::Finish { outcome } = step.action {
            assert!(driver.is_finished());
            trace.outcome = outcome;
            return trace;
        }
        assert!(!driver.is_finished());
        let event = respond(current, &step.action);
        step = driver.step(event).expect("the driver waits for the answer to its own action");
    }
}

/// A node on which everything succeeds; sequence numbers count up from 100
/// on each parachain.
fn healthy() -> impl FnMut(u32, &Action) -> Event {
    let mut next_sequence = std::collections::BTreeMap::new();
    move |id, action| match action {
        Action::Connect { .. } => Event::Connected,
        Action::FetchSequence { .. } => {
            Event::SequenceFetched(*next_sequence.entry(id).or_insert(100u32))
        }
        Action::Submit { sequence, .. } => {
            next_sequence.insert(id, sequence + 1);
            Event::Finalized(block(id as u8))
        }
        Action::Finish { .. } => unreachable!(),
    }
}

#[test]
fn storage_only_on_one_parachain() {
    let trace = drive(plan(10, 10, Some(STORAGE), None), healthy());
    assert_eq!(trace.connected, vec![10]);
    assert_eq!(trace.submitted, vec![(10, build_set_storage(1_400_000_000), 100)]);
    assert_eq!(trace.fetches, 1);
    assert!(trace.submitted.iter().all(|(_, call, _)| call.kind() != LoadKind::Compute));
    assert_eq!(trace.outcome, Outcome::Completed);
    assert_eq!(
        trace.lines,
        vec![
            "\nUpdating Versi Glutton 10".to_string(),
            "- Connecting to client...".to_string(),
            "- Submitting 'set_storage { storage: 1400000000 }'...".to_string(),
            format!("- Tx included in block 0x{}", "0a".repeat(32)),
        ]
    );
}

#[test]
fn compute_only_on_one_parachain() {
    let trace = drive(plan(10, 10, None, Some(COMPUTE)), healthy());
    assert_eq!(trace.connected, vec![10]);
    assert_eq!(trace.submitted, vec![(10, build_set_compute(COMPUTE), 100)]);
    assert_eq!(trace.outcome, Outcome::Completed);
}

#[test]
fn both_loads_on_three_parachains() {
    let trace = drive(plan(10, 12, Some(STORAGE), Some(COMPUTE)), healthy());
    assert_eq!(trace.connected, vec![10, 11, 12]);
    assert_eq!(
        trace.submitted,
        vec![
            (10, build_set_storage(STORAGE), 100),
            (10, build_set_compute(COMPUTE), 101),
            (11, build_set_storage(STORAGE), 100),
            (11, build_set_compute(COMPUTE), 101),
            (12, build_set_storage(STORAGE), 100),
            (12, build_set_compute(COMPUTE), 101),
        ]
    );
    assert_eq!(trace.submitted.len(), 6);
    assert_eq!(trace.fetches, 6);
    assert_eq!(trace.outcome, Outcome::Completed);
    assert_eq!(trace.lines.len(), 3 * 6);
    assert_eq!(trace.lines[6], "\nUpdating Versi Glutton 11");
    assert_eq!(trace.lines[10], "- Submitting 'set_compute { compute: 700000000 }'...");
}

#[test]
fn no_loads_only_connects() {
    let trace = drive(plan(3, 5, None, None), healthy());
    assert_eq!(trace.connected, vec![3, 4, 5]);
    assert!(trace.submitted.is_empty());
    assert_eq!(trace.fetches, 0);
    assert_eq!(trace.outcome, Outcome::Completed);
}

#[test]
fn single_identifier_range() {
    for id in [0u32, 10, u32::MAX] {
        let trace = drive(plan(id, id, Some(STORAGE), Some(COMPUTE)), healthy());
        assert_eq!(trace.connected, vec![id]);
        assert_eq!(trace.submitted.len(), 2);
        assert_eq!(trace.outcome, Outcome::Completed);
    }
}

#[test]
fn range_ends_are_both_included() {
    let trace = drive(plan(u32::MAX - 1, u32::MAX, Some(STORAGE), None), healthy());
    assert_eq!(trace.connected, vec![u32::MAX - 1, u32::MAX]);
    assert_eq!(trace.submitted.len(), 2);
}

#[test]
fn first_step_connects_to_first_parachain() {
    let (driver, step) = Driver::begin(plan(10, 12, Some(STORAGE), None), account()).unwrap();
    assert_eq!(driver.position(), Progress { id: 10, stage: Stage::Connecting });
    assert_eq!(
        step,
        Step {
            notices: vec![
                Notice::Updating { relay: RelayChain::Versi, id: 10 },
                Notice::Connecting
            ],
            action: Action::Connect {
                id: 10,
                address: String::from(
                    "wss://versi-glutton-collator-10-node-1.parity-versi.parity.io:443"
                ),
            },
        }
    );
}

#[test]
fn sequence_number_is_used_as_fetched() {
    let (mut driver, _) = Driver::begin(plan(10, 10, Some(STORAGE), None), account()).unwrap();
    let step = driver.step(Event::Connected).unwrap();
    assert_eq!(step.notices, vec![Notice::Submitting(build_set_storage(STORAGE))]);
    assert_eq!(step.action, Action::FetchSequence { query: sequence_query(&account()) });
    assert_eq!(driver.position(), Progress { id: 10, stage: Stage::FetchingSequence(LoadKind::Storage) });
    let step = driver.step(Event::SequenceFetched(4242)).unwrap();
    assert_eq!(step.notices, vec![]);
    assert_eq!(
        step.action,
        Action::Submit { call: build_set_storage(STORAGE), sequence: 4242, account: account() }
    );
    assert_eq!(driver.position(), Progress { id: 10, stage: Stage::AwaitingFinality(LoadKind::Storage) });
    let step = driver.step(Event::Finalized(block(1))).unwrap();
    assert_eq!(step.notices, vec![Notice::Included(block(1))]);
    assert_eq!(step.action, Action::Finish { outcome: Outcome::Completed });
    assert_eq!(driver.position(), Progress { id: 10, stage: Stage::Finished });
}

#[test]
fn each_submission_fetches_its_own_sequence_number() {
    let mut numbers = vec![5u32, 9, 2, 2].into_iter();
    let trace = drive(plan(1, 2, Some(STORAGE), Some(COMPUTE)), move |id, action| match action {
        Action::Connect { .. } => Event::Connected,
        Action::FetchSequence { .. } => Event::SequenceFetched(numbers.next().unwrap()),
        Action::Submit { .. } => Event::Finalized(block(id as u8)),
        Action::Finish { .. } => unreachable!(),
    });
    let used: Vec<u32> = trace.submitted.iter().map(|(_, _, sequence)| *sequence).collect();
    assert_eq!(used, vec![5, 9, 2, 2]);
    assert_eq!(trace.fetches, trace.submitted.len());
}

#[test]
fn sequence_failure_aborts_run() {
    let trace = drive(plan(10, 12, Some(STORAGE), Some(COMPUTE)), |id, action| match action {
        Action::Connect { .. } => Event::Connected,
        Action::FetchSequence { .. } if id == 11 => Event::SequenceFailed(String::from("no answer")),
        Action::FetchSequence { .. } => Event::SequenceFetched(1),
        Action::Submit { .. } => Event::Finalized(block(id as u8)),
        Action::Finish { .. } => unreachable!(),
    });
    assert_eq!(trace.connected, vec![10, 11]);
    assert_eq!(
        trace.submitted,
        vec![(10, build_set_storage(STORAGE), 1), (10, build_set_compute(COMPUTE), 1)]
    );
    assert_eq!(
        trace.outcome,
        Outcome::Aborted(Failure {
            id: 11,
            error: RunError { kind: ErrorKind::Rpc, detail: String::from("no answer") },
        })
    );
    assert_eq!(trace.lines.last().unwrap(), "- Sequence lookup failed: no answer");
}

#[test]
fn sequence_failure_skips_parachain_when_asked_to() {
    let mut skipping = plan(10, 12, Some(STORAGE), Some(COMPUTE));
    skipping.policy = FailurePolicy::SkipIdentifier;
    let trace = drive(skipping, |id, action| match action {
        Action::Connect { .. } => Event::Connected,
        Action::FetchSequence { .. } if id == 11 => Event::SequenceFailed(String::from("no answer")),
        Action::FetchSequence { .. } => Event::SequenceFetched(1),
        Action::Submit { .. } => Event::Finalized(block(id as u8)),
        Action::Finish { .. } => unreachable!(),
    });
    assert_eq!(trace.connected, vec![10, 11, 12]);
    assert_eq!(
        trace.submitted,
        vec![
            (10, build_set_storage(STORAGE), 1),
            (10, build_set_compute(COMPUTE), 1),
            (12, build_set_storage(STORAGE), 1),
            (12, build_set_compute(COMPUTE), 1),
        ]
    );
    assert_eq!(trace.outcome, Outcome::Completed);
    assert!(trace.lines.contains(&String::from("- Sequence lookup failed: no answer")));
}

#[test]
fn connection_failure_aborts_run() {
    let trace = drive(plan(10, 12, Some(STORAGE), None), |id, action| match action {
        Action::Connect { .. } if id == 10 => Event::ConnectionFailed(String::from("refused")),
        Action::Connect { .. } => Event::Connected,
        Action::FetchSequence { .. } => Event::SequenceFetched(1),
        Action::Submit { .. } => Event::Finalized(block(id as u8)),
        Action::Finish { .. } => unreachable!(),
    });
    assert_eq!(trace.connected, vec![10]);
    assert!(trace.submitted.is_empty());
    assert_eq!(
        trace.outcome,
        Outcome::Aborted(Failure {
            id: 10,
            error: RunError { kind: ErrorKind::Connection, detail: String::from("refused") },
        })
    );
    assert_eq!(
        trace.lines,
        vec![
            "\nUpdating Versi Glutton 10".to_string(),
            "- Connecting to client...".to_string(),
            "- Connection failed: refused".to_string(),
        ]
    );
}

#[test]
fn connection_failure_skips_parachain_when_asked_to() {
    let mut skipping = plan(10, 12, Some(STORAGE), None);
    skipping.policy = FailurePolicy::SkipIdentifier;
    let trace = drive(skipping, |id, action| match action {
        Action::Connect { .. } if id != 11 => Event::ConnectionFailed(String::from("refused")),
        Action::Connect { .. } => Event::Connected,
        Action::FetchSequence { .. } => Event::SequenceFetched(1),
        Action::Submit { .. } => Event::Finalized(block(id as u8)),
        Action::Finish { .. } => unreachable!(),
    });
    assert_eq!(trace.connected, vec![10, 11, 12]);
    assert_eq!(trace.submitted, vec![(11, build_set_storage(STORAGE), 1)]);
    assert_eq!(trace.outcome, Outcome::Completed);
}

#[test]
fn submission_failure_aborts_run() {
    let trace = drive(plan(10, 11, Some(STORAGE), Some(COMPUTE)), |id, action| match action {
        Action::Connect { .. } => Event::Connected,
        Action::FetchSequence { .. } => Event::SequenceFetched(3),
        Action::Submit { call, .. } if call.kind() == LoadKind::Compute => {
            Event::SubmissionFailed(String::from("Dropped"))
        }
        Action::Submit { .. } => Event::Finalized(block(id as u8)),
        Action::Finish { .. } => unreachable!(),
    });
    assert_eq!(trace.connected, vec![10]);
    assert_eq!(
        trace.submitted,
        vec![(10, build_set_storage(STORAGE), 3), (10, build_set_compute(COMPUTE), 3)]
    );
    assert_eq!(
        trace.outcome,
        Outcome::Aborted(Failure {
            id: 10,
            error: RunError { kind: ErrorKind::Submission, detail: String::from("Dropped") },
        })
    );
    assert_eq!(trace.lines.last().unwrap(), "- Tx did not succeed: Dropped");
}

#[test]
fn submission_failure_skips_rest_of_parachain_when_asked_to() {
    let mut skipping = plan(10, 11, Some(STORAGE), Some(COMPUTE));
    skipping.policy = FailurePolicy::SkipIdentifier;
    let trace = drive(skipping, |id, action| match action {
        Action::Connect { .. } => Event::Connected,
        Action::FetchSequence { .. } => Event::SequenceFetched(3),
        Action::Submit { call, .. } if id == 10 && call.kind() == LoadKind::Storage => {
            Event::SubmissionFailed(String::from("Invalid"))
        }
        Action::Submit { .. } => Event::Finalized(block(id as u8)),
        Action::Finish { .. } => unreachable!(),
    });
    assert_eq!(trace.connected, vec![10, 11]);
    assert_eq!(
        trace.submitted,
        vec![
            (10, build_set_storage(STORAGE), 3),
            (11, build_set_storage(STORAGE), 3),
            (11, build_set_compute(COMPUTE), 3),
        ]
    );
    assert_eq!(trace.outcome, Outcome::Completed);
}

#[test]
fn event_that_is_not_awaited_changes_nothing() {
    let (mut driver, _) = Driver::begin(plan(10, 11, Some(STORAGE), None), account()).unwrap();
    let before = driver.position();
    assert_eq!(driver.step(Event::SequenceFetched(1)), None);
    assert_eq!(driver.step(Event::Finalized(block(1))), None);
    assert_eq!(driver.step(Event::SequenceFailed(String::from("x"))), None);
    assert_eq!(driver.step(Event::SubmissionFailed(String::from("x"))), None);
    assert_eq!(driver.position(), before);
    assert!(driver.step(Event::Connected).is_some());
    assert_eq!(driver.step(Event::Connected), None);
    assert_eq!(driver.step(Event::ConnectionFailed(String::from("x"))), None);
    assert_eq!(driver.step(Event::Finalized(block(1))), None);
    assert!(driver.step(Event::SequenceFetched(1)).is_some());
    assert_eq!(driver.step(Event::SequenceFetched(2)), None);
    assert_eq!(driver.step(Event::Connected), None);
}

#[test]
fn finished_run_takes_no_event() {
    let (mut driver, _) = Driver::begin(plan(10, 10, None, None), account()).unwrap();
    let step = driver.step(Event::Connected).unwrap();
    assert_eq!(step.action, Action::Finish { outcome: Outcome::Completed });
    assert!(driver.is_finished());
    assert_eq!(driver.step(Event::Connected), None);
    assert_eq!(driver.step(Event::SequenceFetched(0)), None);
    assert_eq!(driver.step(Event::Finalized(block(0))), None);
    assert!(driver.is_finished());
}

#[test]
fn empty_range_is_refused() {
    let refused = Driver::begin(plan(12, 10, Some(STORAGE), None), account());
    assert_eq!(refused.err(), Some(ConfigurationError::EmptyRange { from: 12, to: 10 }));
    assert_eq!(
        plan(12, 10, None, None).check(),
        Err(ConfigurationError::EmptyRange { from: 12, to: 10 })
    );
    assert_eq!(plan(10, 10, None, None).check(), Ok(()));
}

#[test]
fn local_range_beyond_ports_is_refused_before_any_connection() {
    let mut local = plan(65530, 65540, Some(STORAGE), None);
    local.relay = RelayChain::Local;
    assert_eq!(
        Driver::begin(local, account()).err(),
        Some(ConfigurationError::PortOutOfRange { id: 65536 })
    );
    local.from = 70000;
    local.to = 70001;
    assert_eq!(
        Driver::begin(local, account()).err(),
        Some(ConfigurationError::PortOutOfRange { id: 70000 })
    );
    local.from = 65535;
    local.to = 65535;
    let (_, step) = Driver::begin(local, account()).unwrap();
    assert_eq!(
        step.action,
        Action::Connect { id: 65535, address: String::from("ws://127.0.0.1:65535") }
    );
}
