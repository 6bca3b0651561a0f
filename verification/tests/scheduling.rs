use proving_pipeline::error::ProverError;
use proving_pipeline::outcome::{JobOutput, PipelineOutcome, Proof};
use proving_pipeline::pipeline::{FailureReport, ProvingPipeline};
use proving_pipeline::scheduler::{Action, ExecutionMode, JobEvent, Scheduler};
use proving_pipeline::task::{Task, TaskType};

/// Which of the jobs in flight completes next.
#[derive(Clone, Copy)]
enum Order {
    OldestFirst,
    NewestFirst,
    Shuffled(u64),
}

#[derive(Default)]
struct Trace {
    admitted: Vec<usize>,
    completed: Vec<usize>,
    max_active: usize,
    parsed: usize,
    proved: usize,
    reports: Vec<FailureReport>,
    last_action: Option<Action>,
}

fn record_of(n: u8) -> Vec<u8> {
    vec![n, 0, 0, 0, 1, 0, 0, 0, 1, 0, 0, 0]
}

fn fib_task(task_type: TaskType, inputs: Vec<Vec<u8>>) -> Task {
    Task::new("fib_input_initial".to_string(), task_type, inputs)
}

fn good_task(task_type: TaskType, n: usize) -> Task {
    fib_task(task_type, (0..n).map(|i| record_of(i as u8)).collect())
}

fn proof_for(raw: &[u8]) -> Proof {
    let mut bytes = b"proof of ".to_vec();
    bytes.extend_from_slice(raw);
    Proof::from_bytes(bytes)
}

/// Stands for parsing and proving: a record has twelve bytes, and its first
/// byte may ask for a failure.
fn run_job(index: usize, raw: &[u8], trace: &mut Trace) -> Result<JobOutput, ProverError> {
    trace.parsed += 1;
    if raw.len() != 12 {
        return Err(ProvingPipeline::malformed_input(index, "expected 12 bytes".to_string()));
    }
    trace.proved += 1;
    let proved = match raw[0] {
        0xEE => Err(ProverError::Stwo("proof did not validate".to_string())),
        0xDD => Err(ProverError::GuestProgram("guest aborted".to_string())),
        0xCC => Err(ProverError::Serialization("cannot encode".to_string())),
        _ => Ok(proof_for(raw)),
    };
    let concluded = ProvingPipeline::conclude_job(index, proved);
    if let Some(report) = concluded.report {
        trace.reports.push(report);
    }
    concluded.result
}

fn pick(order: &mut Order, active: &[usize]) -> usize {
    match order {
        Order::OldestFirst => 0,
        Order::NewestFirst => active.len() - 1,
        Order::Shuffled(state) => {
            *state = state.wrapping_mul(6364136223846793005).wrapping_add(1442695040888963407);
            ((*state >> 33) as usize) % active.len()
        }
    }
}

fn drive(
    task: &Task,
    threads: usize,
    mut order: Order,
) -> (Result<PipelineOutcome, ProverError>, Trace) {
    let mut trace = Trace::default();
    let mut scheduler = match ProvingPipeline::prove_authenticated(task, threads) {
        Ok(scheduler) => scheduler,
        Err(e) => return (Err(e), trace),
    };
    let mut active: Vec<usize> = Vec::new();
    loop {
        let action = scheduler.next_action();
        trace.last_action = Some(action);
        match action {
            Action::Admit(index) => {
                active.push(index);
                trace.admitted.push(index);
                trace.max_active = trace.max_active.max(active.len());
                assert_eq!(scheduler.in_flight(), active.len());
                assert!(scheduler.in_flight() <= scheduler.limit());
            }
            Action::Wait => {
                assert!(!active.is_empty());
                let index = active.remove(pick(&mut order, &active));
                let result = run_job(index, &task.all_inputs()[index], &mut trace);
                trace.completed.push(index);
                let event = JobEvent::from_join(Ok(result));
                assert!(scheduler.accepts(&event));
                scheduler.record(event);
            }
            Action::Finish | Action::Abandon => {
                assert!(scheduler.is_settled());
                return (scheduler.finish(), trace);
            }
        }
    }
}

fn expected_outcome(task: &Task) -> PipelineOutcome {
    let proofs: Vec<Proof> = task.all_inputs().iter().map(|raw| proof_for(raw)).collect();
    let proof_hashes: Vec<String> =
        proofs.iter().map(|p| ProvingPipeline::generate_proof_hash(p)).collect();
    let combined_hash = ProvingPipeline::combine_proof_hashes(task, &proof_hashes);
    PipelineOutcome { proofs, combined_hash, proof_hashes }
}

#[test]
fn results_come_out_in_input_order_for_every_bound() {
    for n in [1usize, 2, 3, 5, 8] {
        let task = good_task(TaskType::AllProofHashes, n);
        let expected = expected_outcome(&task);
        for threads in [0usize, 1, 2, n, n + 5] {
            for order in [Order::OldestFirst, Order::NewestFirst, Order::Shuffled(n as u64 + 17)] {
                let (result, trace) = drive(&task, threads, order);
                assert_eq!(result, Ok(expected.clone()));
                assert_eq!(trace.admitted, (0..n).collect::<Vec<usize>>());
                assert_eq!(trace.last_action, Some(Action::Finish));
                assert!(trace.reports.is_empty());
            }
        }
    }
}

#[test]
fn single_lane_and_bounded_runs_agree() {
    let task = good_task(TaskType::ProofHash, 6);
    let (single, _) = drive(&task, 1, Order::OldestFirst);
    let (bounded, trace) = drive(&task, 3, Order::NewestFirst);
    let single = single.unwrap();
    let bounded = bounded.unwrap();
    assert_eq!(single.proof_hashes, bounded.proof_hashes);
    assert_eq!(single.combined_hash, bounded.combined_hash);
    assert_eq!(single.proofs, bounded.proofs);
    assert_ne!(trace.completed, (0..6).collect::<Vec<usize>>());
}

#[test]
fn successful_outcome_has_one_proof_and_hash_per_input() {
    for task_type in [TaskType::ProofRequired, TaskType::ProofHash, TaskType::AllProofHashes] {
        let task = good_task(task_type, 7);
        let (result, _) = drive(&task, 4, Order::Shuffled(99));
        let outcome = result.unwrap();
        assert_eq!(outcome.proofs.len(), 7);
        assert_eq!(outcome.proof_hashes.len(), 7);
        assert_eq!(
            outcome.combined_hash,
            ProvingPipeline::combine_proof_hashes(&task, &outcome.proof_hashes)
        );
        for (i, proof) in outcome.proofs.iter().enumerate() {
            assert_eq!(proof, &proof_for(&task.all_inputs()[i]));
            assert_eq!(outcome.proof_hashes[i], ProvingPipeline::generate_proof_hash(proof));
        }
    }
}

#[test]
fn combined_hash_of_proof_required_task_is_first_hash() {
    let task = good_task(TaskType::ProofRequired, 3);
    let outcome = drive(&task, 2, Order::NewestFirst).0.unwrap();
    assert_eq!(outcome.combined_hash, outcome.proof_hashes[0]);
}

#[test]
fn rerunning_gives_the_same_hashes() {
    let task = good_task(TaskType::AllProofHashes, 5);
    let first = drive(&task, 2, Order::Shuffled(1)).0.unwrap();
    let second = drive(&task, 2, Order::Shuffled(2)).0.unwrap();
    let third = drive(&task, 5, Order::OldestFirst).0.unwrap();
    assert_eq!(first.proof_hashes, second.proof_hashes);
    assert_eq!(first.proof_hashes, third.proof_hashes);
    assert_eq!(first, second);
}

#[test]
fn malformed_input_in_the_middle_fails_the_whole_task() {
    let mut inputs: Vec<Vec<u8>> = (0..5).map(|i| record_of(i as u8)).collect();
    inputs[2] = vec![1, 2, 3];
    let task = fib_task(TaskType::AllProofHashes, inputs);
    for threads in [1usize, 2, 5, 10] {
        for order in [Order::OldestFirst, Order::NewestFirst, Order::Shuffled(5)] {
            let (result, trace) = drive(&task, threads, order);
            assert_eq!(
                result,
                Err(ProverError::MalformedInput {
                    index: 2,
                    reason: "expected 12 bytes".to_string()
                })
            );
            assert_eq!(trace.last_action, Some(Action::Abandon));
            assert_eq!(trace.completed.last(), Some(&2));
            assert!(trace.reports.is_empty());
        }
    }
}

#[test]
fn single_lane_stops_at_the_first_failure() {
    let mut inputs: Vec<Vec<u8>> = (0..5).map(|i| record_of(i as u8)).collect();
    inputs[2] = vec![1, 2, 3];
    let task = fib_task(TaskType::AllProofHashes, inputs);
    let (result, trace) = drive(&task, 1, Order::OldestFirst);
    assert!(matches!(result, Err(ProverError::MalformedInput { index: 2, .. })));
    assert_eq!(trace.admitted, vec![0, 1, 2]);
    assert_eq!(trace.completed, vec![0, 1, 2]);
    assert_eq!(trace.parsed, 3);
    assert_eq!(trace.proved, 2);
}

#[test]
fn results_of_abandoned_jobs_leave_no_trace() {
    let mut scheduler = Scheduler::start(TaskType::AllProofHashes, 5, 3).unwrap();
    assert_eq!(scheduler.next_action(), Action::Admit(0));
    assert_eq!(scheduler.next_action(), Action::Admit(1));
    assert_eq!(scheduler.next_action(), Action::Admit(2));
    assert_eq!(scheduler.next_action(), Action::Wait);
    scheduler.record(JobEvent::Failed(ProvingPipeline::malformed_input(1, "bad".to_string())));
    assert!(scheduler.has_failed());
    assert_eq!(scheduler.in_flight(), 0);
    assert_eq!(scheduler.next_action(), Action::Abandon);
    let late = JobEvent::Completed(JobOutput {
        index: 2,
        proof: Proof::from_bytes(vec![2]),
        hash: "late".to_string(),
    });
    assert!(scheduler.accepts(&late));
    scheduler.record(late);
    scheduler.record(JobEvent::Failed(ProverError::Stwo("later".to_string())));
    scheduler.record(JobEvent::JoinFailed("latest".to_string()));
    assert_eq!(scheduler.admitted(), 3);
    assert_eq!(scheduler.in_flight(), 0);
    assert_eq!(scheduler.next_action(), Action::Abandon);
    assert_eq!(
        scheduler.finish(),
        Err(ProverError::MalformedInput { index: 1, reason: "bad".to_string() })
    );
}

#[test]
fn at_most_three_of_ten_jobs_are_active() {
    let task = good_task(TaskType::AllProofHashes, 10);
    for order in [Order::OldestFirst, Order::NewestFirst, Order::Shuffled(3)] {
        let (result, trace) = drive(&task, 3, order);
        assert!(result.is_ok());
        assert_eq!(trace.max_active, 3);
        assert_eq!(trace.admitted.len(), 10);
    }
}

#[test]
fn window_never_exceeds_bound_nor_inputs() {
    for n in 1usize..7 {
        for threads in 0usize..9 {
            let task = good_task(TaskType::ProofHash, n);
            let (result, trace) = drive(&task, threads, Order::Shuffled((n * 31 + threads) as u64));
            assert!(result.is_ok());
            let lanes = if threads <= 1 || n <= 1 { 1 } else { threads };
            assert_eq!(trace.max_active, lanes.min(n));
        }
    }
}

#[test]
fn first_batch_fills_the_window_then_refills_one_by_one() {
    let mut scheduler = Scheduler::start(TaskType::ProofHash, 4, 2).unwrap();
    assert_eq!(scheduler.total(), 4);
    assert_eq!(scheduler.limit(), 2);
    assert_eq!(scheduler.mode(), ExecutionMode::Bounded);
    assert_eq!(scheduler.task_type(), TaskType::ProofHash);
    assert_eq!(scheduler.next_action(), Action::Admit(0));
    assert_eq!(scheduler.next_action(), Action::Admit(1));
    assert_eq!(scheduler.next_action(), Action::Wait);
    assert_eq!(scheduler.next_action(), Action::Wait);
    assert_eq!((scheduler.admitted(), scheduler.in_flight()), (2, 2));
    let done = |index: usize| {
        JobEvent::Completed(JobOutput {
            index,
            proof: Proof::from_bytes(vec![index as u8]),
            hash: format!("h{}", index),
        })
    };
    scheduler.record(done(1));
    assert_eq!((scheduler.admitted(), scheduler.in_flight()), (2, 1));
    assert_eq!(scheduler.next_action(), Action::Admit(2));
    assert_eq!(scheduler.next_action(), Action::Wait);
    scheduler.record(done(2));
    assert_eq!(scheduler.next_action(), Action::Admit(3));
    assert_eq!(scheduler.next_action(), Action::Wait);
    scheduler.record(done(0));
    assert!(!scheduler.is_settled());
    assert_eq!(scheduler.next_action(), Action::Wait);
    scheduler.record(done(3));
    assert!(scheduler.is_settled());
    assert_eq!(scheduler.in_flight(), 0);
    assert_eq!(scheduler.next_action(), Action::Finish);
    let outcome = scheduler.finish().unwrap();
    assert_eq!(outcome.proof_hashes, vec!["h0", "h1", "h2", "h3"]);
    assert_eq!(
        outcome.proofs,
        vec![
            Proof::from_bytes(vec![0]),
            Proof::from_bytes(vec![1]),
            Proof::from_bytes(vec![2]),
            Proof::from_bytes(vec![3])
        ]
    );
    let hashes: Vec<String> = (0..4).map(|i| format!("h{}", i)).collect();
    assert_eq!(outcome.combined_hash, Task::combine_proof_hashes(&hashes));
}

#[test]
fn mode_is_chosen_by_bound_and_input_count() {
    let mode = |inputs: usize, threads: usize| {
        let scheduler = Scheduler::start(TaskType::ProofHash, inputs, threads).unwrap();
        (scheduler.mode(), scheduler.limit())
    };
    assert_eq!(mode(5, 0), (ExecutionMode::SingleLane, 1));
    assert_eq!(mode(5, 1), (ExecutionMode::SingleLane, 1));
    assert_eq!(mode(1, 8), (ExecutionMode::SingleLane, 1));
    assert_eq!(mode(2, 2), (ExecutionMode::Bounded, 2));
    assert_eq!(mode(2, 8), (ExecutionMode::Bounded, 8));
    assert_eq!(mode(5, 3), (ExecutionMode::Bounded, 3));
}

#[test]
fn scheduler_refuses_results_it_did_not_ask_for() {
    let mut scheduler = Scheduler::start(TaskType::ProofHash, 3, 2).unwrap();
    let done = |index: usize| {
        JobEvent::Completed(JobOutput {
            index,
            proof: Proof::from_bytes(vec![]),
            hash: String::new(),
        })
    };
    assert!(!scheduler.accepts(&done(0)));
    assert!(!scheduler.accepts(&JobEvent::Failed(ProverError::Io("x".to_string()))));
    assert_eq!(scheduler.next_action(), Action::Admit(0));
    assert!(scheduler.accepts(&done(0)));
    assert!(!scheduler.accepts(&done(1)));
    assert!(!scheduler.accepts(&done(3)));
    assert!(!scheduler.accepts(&done(usize::MAX)));
    assert_eq!(scheduler.next_action(), Action::Admit(1));
    scheduler.record(done(0));
    assert!(!scheduler.accepts(&done(0)));
    assert!(scheduler.accepts(&done(1)));
    assert!(scheduler.accepts(&JobEvent::JoinFailed("x".to_string())));
}

#[test]
fn proof_system_failure_is_reported_once_and_fails_the_task() {
    let mut inputs: Vec<Vec<u8>> = (0..4).map(|i| record_of(i as u8)).collect();
    inputs[1][0] = 0xEE;
    let task = fib_task(TaskType::ProofHash, inputs);
    let (result, trace) = drive(&task, 1, Order::OldestFirst);
    assert_eq!(result, Err(ProverError::Stwo("proof did not validate".to_string())));
    assert_eq!(
        trace.reports,
        vec![FailureReport {
            index: 1,
            message: "Input 1: Stwo prover error: proof did not validate".to_string()
        }]
    );
    assert_eq!(trace.admitted, vec![0, 1]);
}

#[test]
fn guest_program_failure_is_reported_and_fails_the_task() {
    let mut inputs: Vec<Vec<u8>> = (0..4).map(|i| record_of(i as u8)).collect();
    inputs[3][0] = 0xDD;
    let task = fib_task(TaskType::ProofHash, inputs);
    let (result, trace) = drive(&task, 4, Order::NewestFirst);
    assert_eq!(result, Err(ProverError::GuestProgram("guest aborted".to_string())));
    assert_eq!(
        trace.reports,
        vec![FailureReport {
            index: 3,
            message: "Input 3: Guest Program error: guest aborted".to_string()
        }]
    );
    assert_eq!(trace.completed, vec![3]);
}

#[test]
fn other_failure_fails_the_task_without_report() {
    let mut inputs: Vec<Vec<u8>> = (0..3).map(|i| record_of(i as u8)).collect();
    inputs[0][0] = 0xCC;
    let task = fib_task(TaskType::ProofHash, inputs);
    let (result, trace) = drive(&task, 2, Order::OldestFirst);
    assert_eq!(result, Err(ProverError::Serialization("cannot encode".to_string())));
    assert!(trace.reports.is_empty());
}

#[test]
fn job_that_cannot_be_joined_fails_the_task_with_its_own_kind() {
    let mut scheduler = Scheduler::start(TaskType::ProofHash, 3, 3).unwrap();
    assert_eq!(scheduler.next_action(), Action::Admit(0));
    assert_eq!(scheduler.next_action(), Action::Admit(1));
    assert_eq!(scheduler.next_action(), Action::Admit(2));
    scheduler.record(JobEvent::Completed(JobOutput {
        index: 0,
        proof: Proof::from_bytes(vec![0]),
        hash: "h0".to_string(),
    }));
    scheduler.record(JobEvent::from_join(Err("task 2 panicked".to_string())));
    assert!(scheduler.is_settled());
    assert_eq!(scheduler.next_action(), Action::Abandon);
    assert_eq!(
        scheduler.finish(),
        Err(ProverError::Io("join error: task 2 panicked".to_string()))
    );
}

#[test]
fn first_error_wins() {
    let mut scheduler = Scheduler::start(TaskType::ProofHash, 3, 3).unwrap();
    for i in 0..3 {
        assert_eq!(scheduler.next_action(), Action::Admit(i));
    }
    scheduler.record(JobEvent::Failed(ProverError::GuestProgram("first".to_string())));
    scheduler.record(JobEvent::Failed(ProverError::Stwo("second".to_string())));
    assert_eq!(scheduler.finish(), Err(ProverError::GuestProgram("first".to_string())));
}

#[test]
fn single_input_runs_in_a_single_lane() {
    let task = good_task(TaskType::AllProofHashes, 1);
    let (result, trace) = drive(&task, 16, Order::NewestFirst);
    let outcome = result.unwrap();
    assert_eq!(outcome.proofs.len(), 1);
    assert_eq!(trace.max_active, 1);
    assert_eq!(outcome.combined_hash, Task::combine_proof_hashes(&outcome.proof_hashes));
}
