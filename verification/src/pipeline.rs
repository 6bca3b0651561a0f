//! The proving pipeline: routing a task to its program, what one job does
//! with what the proving engine hands back, hashing and combining.

use crate::digest::{keccak256_hex, keccak256_hex_string};
use crate::error::{ProverError, ProverErrorView};
use crate::outcome::{string_views, JobOutput, JobOutputView, Proof, ProvedInput};
use crate::scheduler::{Scheduler, SchedulerView};
use crate::task::{combined_hash, Program, Task, TaskView};
use crate::text::{decimal, decimal_string};
use vstd::prelude::*;
use vstd::string::*;

verus! {

/// A notice for the failure reporter: which input failed, and the text to
/// send. The driver adds the task, the environment and the client.
#[derive(Debug, Clone, PartialEq, Eq)]
pub struct FailureReport {
    pub index: usize,
    pub message: String,
}

/// The mathematical value of a [`FailureReport`].
pub ghost struct FailureReportView {
    pub index: nat,
    pub message: Seq<char>,
}

impl View for FailureReport {
    type V = FailureReportView;

    open spec fn view(&self) -> FailureReportView {
        FailureReportView { index: self.index as nat, message: self.message@ }
    }
}

/// How one job ends: what it hands to the scheduler, and the notice to
/// dispatch on the side, if any.
#[derive(Debug, PartialEq, Eq)]
pub struct JobConclusion {
    pub result: Result<JobOutput, ProverError>,
    pub report: Option<FailureReport>,
}

/// The mathematical value of a [`JobConclusion`].
pub ghost struct JobConclusionView {
    pub result: Result<JobOutputView, ProverErrorView>,
    pub report: Option<FailureReportView>,
}

impl View for JobConclusion {
    type V = JobConclusionView;

    open spec fn view(&self) -> JobConclusionView {
        JobConclusionView {
            result: match self.result {
                Ok(out) => Ok(out@),
                Err(e) => Err(e@),
            },
            report: match self.report {
                Some(r) => Some(r@),
                None => None,
            },
        }
    }
}

/// The text of the notice for a failure of the input at `index`.
pub open spec fn report_text(index: nat, error: ProverErrorView) -> Seq<char> {
    "Input "@ + decimal(index) + ": "@ + error.message()
}

/// The error for a task whose program is not known.
pub open spec fn unsupported_program(program_id: Seq<char>) -> ProverErrorView {
    ProverErrorView::MalformedTask("Unsupported program ID: "@ + program_id)
}

/// The error for a task without inputs.
pub open spec fn no_inputs() -> ProverErrorView {
    ProverErrorView::MalformedTask("No inputs provided for task"@)
}

/// How a run of `task` begins: with an error, if the program is unknown or
/// there are no inputs, else with the initial state of its scheduler.
pub open spec fn opening(task: TaskView, per_task_threads: nat) -> Result<
    SchedulerView,
    ProverErrorView,
> {
    if Program::of_id(task.program_id) is None {
        Err(unsupported_program(task.program_id))
    } else if task.inputs.len() == 0 {
        Err(no_inputs())
    } else {
        Ok(SchedulerView::initial(task.task_type, task.inputs.len(), per_task_threads))
    }
}

/// How the job for the input at `index` ends, given what proving handed back.
/// A proof is hashed and tagged with the index. An error is handed on as it
/// is; only a failure of the proof computation itself is also reported.
pub open spec fn conclusion(index: nat, proved: Result<Seq<u8>, ProverErrorView>) -> JobConclusionView {
    match proved {
        Ok(proof) => JobConclusionView {
            result: Ok(
                JobOutputView { index, proved: ProvedInput { proof, hash: keccak256_hex(proof) } },
            ),
            report: None,
        },
        Err(e) => JobConclusionView {
            result: Err(e),
            report: if e.is_proving_failure() {
                Some(FailureReportView { index, message: report_text(index, e) })
            } else {
                None
            },
        },
    }
}

/// The value of what proving handed back.
pub open spec fn proved_view(proved: Result<Proof, ProverError>) -> Result<Seq<u8>, ProverErrorView> {
    match proved {
        Ok(proof) => Ok(proof@),
        Err(e) => Err(e@),
    }
}

/// The value of how a run begins.
pub open spec fn opening_view(started: Result<Scheduler, ProverError>) -> Result<
    SchedulerView,
    ProverErrorView,
> {
    match started {
        Ok(scheduler) => Ok(scheduler@),
        Err(e) => Err(e@),
    }
}

/// Orchestrates the complete proving pipeline.
pub struct ProvingPipeline;

impl ProvingPipeline {
    /// Opens the proving run for `task`, with at most `per_task_threads` jobs
    /// at a time. A task for an unknown program is refused here, before any
    /// input is looked at.
    pub fn prove_authenticated(task: &Task, per_task_threads: usize) -> (started: Result<
        Scheduler,
        ProverError,
    >)
        ensures
            opening_view(started) == opening(task@, per_task_threads as nat),
            started is Ok ==> started->Ok_0@.wf(),
    {
        match Program::from_id(task.program_id.as_str()) {
            Some(Program::FibInputInitial) => Self::prove_fib_task(task, per_task_threads),
            None => {
                let mut text = String::from_str("Unsupported program ID: ");
                text.append(task.program_id.as_str());
                Err(ProverError::MalformedTask(text))
            },
        }
    }

    /// Opens the run of a Fibonacci task: one job per input record.
    pub fn prove_fib_task(task: &Task, per_task_threads: usize) -> (started: Result<
        Scheduler,
        ProverError,
    >)
        ensures
            task@.inputs.len() == 0 ==> opening_view(started) == Err::<
                SchedulerView,
                ProverErrorView,
            >(no_inputs()),
            task@.inputs.len() > 0 ==> opening_view(started) == Ok::<
                SchedulerView,
                ProverErrorView,
            >(
                SchedulerView::initial(
                    task@.task_type,
                    task@.inputs.len(),
                    per_task_threads as nat,
                ),
            ),
            started is Ok ==> started->Ok_0@.wf(),
    {
        let all_inputs = task.all_inputs();
        Scheduler::start(task.task_type, all_inputs.len(), per_task_threads)
    }

    /// The error of the job for the input at `index` when that input cannot
    /// be parsed.
    pub fn malformed_input(index: usize, reason: String) -> (error: ProverError)
        ensures
            error@ == (ProverErrorView::MalformedInput { index: index as nat, reason: reason@ }),
    {
        ProverError::MalformedInput { index, reason }
    }

    /// The text of the notice for a failure of the input at `index`.
    pub fn failure_message(index: usize, error: &ProverError) -> (text: String)
        ensures
            text@ == report_text(index as nat, error@),
    {
        let mut text = String::from_str("Input ");
        text.append(decimal_string(index).as_str());
        text.append(": ");
        text.append(error.message().as_str());
        text
    }

    /// Ends the job for the input at `index`, given what proving handed back.
    pub fn conclude_job(index: usize, proved: Result<Proof, ProverError>) -> (concluded:
        JobConclusion)
        ensures
            concluded@ == conclusion(index as nat, proved_view(proved)),
    {
        match proved {
            Ok(proof) => {
                let hash = Self::generate_proof_hash(&proof);
                JobConclusion { result: Ok(JobOutput { index, proof, hash }), report: None }
            },
            Err(e) => {
                let report = if e.is_proving_failure() {
                    Some(FailureReport { index, message: Self::failure_message(index, &e) })
                } else {
                    None
                };
                JobConclusion { result: Err(e), report }
            },
        }
    }

    /// The content hash of a proof: the Keccak-256 digest of its canonical
    /// serialization, in lower-case hexadecimal.
    pub fn generate_proof_hash(proof: &Proof) -> (hash: String)
        ensures
            hash@ == keccak256_hex(proof@),
            hash@.len() == 64,
    {
        keccak256_hex_string(proof.as_bytes())
    }

    /// Combines per-input hashes into the task-level hash, by the task's
    /// type.
    pub fn combine_proof_hashes(task: &Task, proof_hashes: &[String]) -> (combined: String)
        ensures
            combined@ == combined_hash(task@.task_type, string_views(proof_hashes@)),
    {
        task.task_type.combine(proof_hashes)
    }
}

} // verus!
