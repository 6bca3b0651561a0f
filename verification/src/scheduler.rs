//! The admission window of a proving run: which input is admitted next, how
//! many jobs are in flight, where each result is kept, and how the run ends.

use crate::error::{ProverError, ProverErrorView};
use crate::outcome::{
    JobOutput, JobOutputView, PipelineOutcome, PipelineOutcomeView, Proof, ProvedInput,
};
use crate::task::{combined_hash, TaskType};
use vstd::prelude::*;
use vstd::string::*;

verus! {

/// How a run executes its jobs.
#[derive(Debug, Clone, Copy, PartialEq, Eq, Structural)]
pub enum ExecutionMode {
    /// One job at a time, strictly in input order.
    SingleLane,
    /// Several jobs at a time, up to the requested bound.
    Bounded,
}

/// The mode of a run over `inputs` inputs that was asked for with
/// `max_concurrency`: a single lane unless more than one job may run and
/// there is more than one input.
pub open spec fn mode_for(max_concurrency: nat, inputs: nat) -> ExecutionMode {
    if max_concurrency <= 1 || inputs <= 1 {
        ExecutionMode::SingleLane
    } else {
        ExecutionMode::Bounded
    }
}

/// The number of jobs that may be in flight at once.
pub open spec fn lanes_for(max_concurrency: nat, inputs: nat) -> nat {
    match mode_for(max_concurrency, inputs) {
        ExecutionMode::SingleLane => 1,
        ExecutionMode::Bounded => max_concurrency,
    }
}

/// What the driver of a run has to do next.
#[derive(Debug, Clone, Copy, PartialEq, Eq, Structural)]
pub enum Action {
    /// Start the job for the input at this index.
    Admit(usize),
    /// Wait for any job in flight to complete, and record what it hands back.
    Wait,
    /// Every input has its proof: take the outcome.
    Finish,
    /// The run has failed: abandon the jobs still in flight and take the error.
    Abandon,
}

/// What a driver reports back after waiting.
#[derive(Debug, Clone, PartialEq, Eq)]
pub enum JobEvent {
    /// A job completed with a proof and its hash.
    Completed(JobOutput),
    /// A job completed with an error.
    Failed(ProverError),
    /// A job could not be joined: it was aborted or it panicked.
    JoinFailed(String),
}

/// The mathematical value of a [`JobEvent`].
pub ghost enum JobEventView {
    Completed(JobOutputView),
    Failed(ProverErrorView),
    JoinFailed(Seq<char>),
}

impl View for JobEvent {
    type V = JobEventView;

    open spec fn view(&self) -> JobEventView {
        match self {
            JobEvent::Completed(out) => JobEventView::Completed(out@),
            JobEvent::Failed(e) => JobEventView::Failed(e@),
            JobEvent::JoinFailed(s) => JobEventView::JoinFailed(s@),
        }
    }
}

/// What joining a job gives: what the job handed back, or why it could not
/// be joined.
pub open spec fn joined_view(joined: Result<Result<JobOutput, ProverError>, String>) -> JobEventView {
    match joined {
        Ok(Ok(out)) => JobEventView::Completed(out@),
        Ok(Err(e)) => JobEventView::Failed(e@),
        Err(detail) => JobEventView::JoinFailed(detail@),
    }
}

impl JobEvent {
    /// The event for what joining a job gave: the job's own result, or the
    /// reason why it could not be joined.
    pub fn from_join(joined: Result<Result<JobOutput, ProverError>, String>) -> (event: JobEvent)
        ensures
            event@ == joined_view(joined),
    {
        match joined {
            Ok(Ok(out)) => JobEvent::Completed(out),
            Ok(Err(e)) => JobEvent::Failed(e),
            Err(detail) => JobEvent::JoinFailed(detail),
        }
    }
}

/// The error that stands for a job that could not be joined.
pub open spec fn join_error(detail: Seq<char>) -> ProverErrorView {
    ProverErrorView::Io("join error: "@ + detail)
}

/// The number of filled slots.
pub open spec fn count_filled(slots: Seq<Option<ProvedInput>>) -> nat
    decreases slots.len(),
{
    if slots.len() == 0 {
        0
    } else {
        count_filled(slots.drop_last()) + if slots.last() is Some {
            1nat
        } else {
            0nat
        }
    }
}

/// The per-input hashes of a sequence of results.
pub open spec fn hashes_of(results: Seq<ProvedInput>) -> Seq<Seq<char>> {
    Seq::new(results.len(), |i: int| results[i].hash)
}

/// The per-input proofs of a sequence of results.
pub open spec fn proofs_of(results: Seq<ProvedInput>) -> Seq<Seq<u8>> {
    Seq::new(results.len(), |i: int| results[i].proof)
}

/// The outcome of a run of a task of type `task_type` whose inputs, in
/// order, gave `results`.
pub open spec fn assemble(task_type: TaskType, results: Seq<ProvedInput>) -> PipelineOutcomeView {
    PipelineOutcomeView {
        proofs: proofs_of(results),
        combined_hash: combined_hash(task_type, hashes_of(results)),
        proof_hashes: hashes_of(results),
    }
}

/// The state of a run.
pub ghost struct SchedulerView {
    /// The type of the task that is run.
    pub task_type: TaskType,
    /// How many jobs may be in flight at once.
    pub limit: nat,
    /// How many inputs have been admitted: those at the indices below.
    pub admitted: nat,
    /// How many admitted jobs have not completed yet.
    pub in_flight: nat,
    /// One slot per input, filled when the job for that input succeeds.
    pub slots: Seq<Option<ProvedInput>>,
    /// The first error, once there is one.
    pub failure: Option<ProverErrorView>,
}

impl SchedulerView {
    /// The state before anything is admitted.
    pub open spec fn initial(task_type: TaskType, inputs: nat, max_concurrency: nat) -> Self {
        SchedulerView {
            task_type,
            limit: lanes_for(max_concurrency, inputs),
            admitted: 0,
            in_flight: 0,
            slots: Seq::new(inputs, |i: int| None),
            failure: None,
        }
    }

    /// The number of inputs.
    pub open spec fn total(self) -> nat {
        self.slots.len()
    }

    /// The invariant of a run: the window never holds more jobs than the
    /// limit, only admitted inputs have results, and while nothing has
    /// failed every admitted input is either in flight or has its result.
    pub open spec fn wf(self) -> bool {
        &&& 1 <= self.slots.len() <= usize::MAX
        &&& self.limit >= 1
        &&& self.admitted <= self.slots.len()
        &&& self.in_flight <= self.limit
        &&& forall|i: int| 0 <= i < self.slots.len() && self.slots[i] is Some ==> i < self.admitted
        &&& match self.failure {
            None => self.in_flight + count_filled(self.slots) == self.admitted,
            Some(_) => self.in_flight == 0,
        }
    }

    /// Whether the next input can be admitted now.
    pub open spec fn can_admit(self) -> bool {
        self.failure is None && self.admitted < self.slots.len() && self.in_flight < self.limit
    }

    /// What is to be done in this state.
    pub open spec fn next_action(self) -> Action {
        if self.failure is Some {
            Action::Abandon
        } else if self.can_admit() {
            Action::Admit(self.admitted as usize)
        } else if self.in_flight > 0 {
            Action::Wait
        } else {
            Action::Finish
        }
    }

    /// The state once the next action has been handed out: an admission
    /// moves the window, nothing else changes anything.
    pub open spec fn after_action(self) -> Self {
        if self.can_admit() {
            SchedulerView { admitted: self.admitted + 1, in_flight: self.in_flight + 1, ..self }
        } else {
            self
        }
    }

    /// Whether the job for the input at `index` is in flight.
    pub open spec fn outstanding(self, index: nat) -> bool {
        self.failure is None && index < self.admitted && self.slots[index as int] is None
    }

    /// Whether `event` can be what a job of this run handed back: after a
    /// failure anything may still arrive; before, some job is in flight, and
    /// a result is for a job in flight.
    pub open spec fn accepts(self, event: JobEventView) -> bool {
        self.failure is Some || (self.in_flight > 0 && (event matches JobEventView::Completed(out)
            ==> self.outstanding(out.index)))
    }

    /// The state once `event` has been recorded. After a failure the state
    /// no longer changes; before, a result fills its slot and leaves the
    /// window, and an error ends the run with nothing left in flight.
    pub open spec fn record(self, event: JobEventView) -> Self {
        if self.failure is Some {
            self
        } else {
            match event {
                JobEventView::Completed(out) => SchedulerView {
                    in_flight: (self.in_flight - 1) as nat,
                    slots: self.slots.update(out.index as int, Some(out.proved)),
                    ..self
                },
                JobEventView::Failed(e) => SchedulerView { in_flight: 0, failure: Some(e), ..self },
                JobEventView::JoinFailed(detail) => SchedulerView {
                    in_flight: 0,
                    failure: Some(join_error(detail)),
                    ..self
                },
            }
        }
    }

    /// The mode of the run: a single lane where one job runs at a time.
    pub open spec fn mode(self) -> ExecutionMode {
        if self.limit <= 1 {
            ExecutionMode::SingleLane
        } else {
            ExecutionMode::Bounded
        }
    }

    /// Whether every input has its result and nothing has failed.
    pub open spec fn is_complete(self) -> bool {
        self.failure is None && forall|i: int| 0 <= i < self.slots.len() ==> self.slots[i] is Some
    }

    /// Whether the run is over, one way or the other.
    pub open spec fn is_settled(self) -> bool {
        self.failure is Some || self.is_complete()
    }

    /// The results in the slots, in input order.
    pub open spec fn results(self) -> Seq<ProvedInput> {
        Seq::new(self.slots.len(), |i: int| self.slots[i]->0)
    }

    /// What a settled run hands back: the first error, or else the outcome
    /// assembled from the slots in input order.
    pub open spec fn outcome(self) -> Result<PipelineOutcomeView, ProverErrorView> {
        match self.failure {
            Some(e) => Err(e),
            None => Ok(assemble(self.task_type, self.results())),
        }
    }
}

/// No slot of an empty table is filled.
pub proof fn lemma_count_filled_none(slots: Seq<Option<ProvedInput>>)
    requires
        forall|i: int| 0 <= i < slots.len() ==> slots[i] is None,
    ensures
        count_filled(slots) == 0,
    decreases slots.len(),
{
    if slots.len() > 0 {
        lemma_count_filled_none(slots.drop_last());
    }
}

/// A table has at most as many filled slots as slots, and as many only if
/// every slot is filled.
pub proof fn lemma_count_filled_bound(slots: Seq<Option<ProvedInput>>)
    ensures
        count_filled(slots) <= slots.len(),
        count_filled(slots) == slots.len() ==> forall|i: int|
            0 <= i < slots.len() ==> slots[i] is Some,
        (forall|i: int| 0 <= i < slots.len() ==> slots[i] is Some) ==> count_filled(slots)
            == slots.len(),
    decreases slots.len(),
{
    if slots.len() > 0 {
        lemma_count_filled_bound(slots.drop_last());
        assert forall|i: int|
            count_filled(slots) == slots.len() && 0 <= i < slots.len() implies slots[i] is Some by {
            if i < slots.len() - 1 {
                assert(slots.drop_last()[i] == slots[i]);
            }
        }
        if forall|i: int| 0 <= i < slots.len() ==> slots[i] is Some {
            assert forall|i: int| 0 <= i < slots.drop_last().len() implies slots.drop_last()[i] is Some by {
                assert(slots.drop_last()[i] == slots[i]);
            }
        }
    }
}

/// Filling an empty slot adds one to the count of filled slots.
pub proof fn lemma_count_filled_update(
    slots: Seq<Option<ProvedInput>>,
    index: int,
    value: ProvedInput,
)
    requires
        0 <= index < slots.len(),
        slots[index] is None,
    ensures
        count_filled(slots.update(index, Some(value))) == count_filled(slots) + 1,
    decreases slots.len(),
{
    let after = slots.update(index, Some(value));
    if index == slots.len() - 1 {
        assert(after.drop_last() =~= slots.drop_last());
    } else {
        assert(after.drop_last() =~= slots.drop_last().update(index, Some(value)));
        lemma_count_filled_update(slots.drop_last(), index, value);
    }
}

/// The value of what a run hands back.
pub open spec fn outcome_view(result: Result<PipelineOutcome, ProverError>) -> Result<
    PipelineOutcomeView,
    ProverErrorView,
> {
    match result {
        Ok(outcome) => Ok(outcome@),
        Err(e) => Err(e@),
    }
}

/// The value of a table of slots.
pub open spec fn slot_views(slots: Seq<Option<JobOutput>>) -> Seq<Option<ProvedInput>> {
    Seq::new(
        slots.len(),
        |i: int|
            match slots[i] {
                Some(out) => Some(out@.proved),
                None => None,
            },
    )
}

/// The items of `items` in reverse order.
fn reversed(items: Vec<Option<JobOutput>>) -> (out: Vec<Option<JobOutput>>)
    ensures
        out@.len() == items@.len(),
        forall|i: int| 0 <= i < items@.len() ==> out@[i] == items@[items@.len() - 1 - i],
{
    let mut rest = items;
    let mut out: Vec<Option<JobOutput>> = Vec::new();
    while rest.len() > 0
        invariant
            rest@.len() + out@.len() == items@.len(),
            forall|i: int| 0 <= i < rest@.len() ==> rest@[i] == items@[i],
            forall|i: int| 0 <= i < out@.len() ==> out@[i] == items@[items@.len() - 1 - i],
        decreases rest@.len(),
    {
        let last = rest.pop();
        match last {
            Some(item) => {
                out.push(item);
            },
            None => {},
        }
    }
    out
}

/// The scheduler of one proving run. It holds the admission window and the
/// result slots; the driver asks it what to do, does it, and reports back.
#[derive(Debug)]
pub struct Scheduler {
    task_type: TaskType,
    limit: usize,
    next_index: usize,
    in_flight: usize,
    slots: Vec<Option<JobOutput>>,
    failure: Option<ProverError>,
}

impl View for Scheduler {
    type V = SchedulerView;

    closed spec fn view(&self) -> SchedulerView {
        SchedulerView {
            task_type: self.task_type,
            limit: self.limit as nat,
            admitted: self.next_index as nat,
            in_flight: self.in_flight as nat,
            slots: slot_views(self.slots@),
            failure: match self.failure {
                Some(e) => Some(e@),
                None => None,
            },
        }
    }
}

impl Scheduler {
    /// Sets up the run of a task of type `task_type` with `inputs` inputs,
    /// at most `max_concurrency` jobs at a time. A task without inputs is
    /// malformed.
    pub fn start(task_type: TaskType, inputs: usize, max_concurrency: usize) -> (started: Result<
        Scheduler,
        ProverError,
    >)
        ensures
            inputs == 0 ==> started is Err && started->Err_0@ == ProverErrorView::MalformedTask(
                "No inputs provided for task"@,
            ),
            inputs > 0 ==> started is Ok && started->Ok_0@ == SchedulerView::initial(
                task_type,
                inputs as nat,
                max_concurrency as nat,
            ) && started->Ok_0@.wf(),
    {
        if inputs == 0 {
            return Err(ProverError::MalformedTask(String::from_str("No inputs provided for task")));
        }
        let limit: usize = if max_concurrency <= 1 || inputs <= 1 {
            1
        } else {
            max_concurrency
        };
        let mut slots: Vec<Option<JobOutput>> = Vec::new();
        let mut i: usize = 0;
        while i < inputs
            invariant
                i <= inputs,
                slots@.len() == i,
                forall|k: int| 0 <= k < i ==> slots@[k] is None,
            decreases inputs - i,
        {
            slots.push(None);
            i = i + 1;
        }
        let scheduler = Scheduler {
            task_type,
            limit,
            next_index: 0,
            in_flight: 0,
            slots,
            failure: None,
        };
        proof {
            assert(scheduler@.slots =~= Seq::new(inputs as nat, |i: int| None));
            lemma_count_filled_none(scheduler@.slots);
        }
        Ok(scheduler)
    }

    /// Says what to do next. Where that is an admission, the input counts as
    /// admitted and its job as in flight from here on.
    pub fn next_action(&mut self) -> (action: Action)
        requires
            old(self)@.wf(),
        ensures
            action == old(self)@.next_action(),
            final(self)@ == old(self)@.after_action(),
            final(self)@.wf(),
            action is Finish ==> final(self)@.is_complete(),
    {
        if self.failure.is_some() {
            Action::Abandon
        } else if self.next_index < self.slots.len() && self.in_flight < self.limit {
            let index = self.next_index;
            self.next_index = self.next_index + 1;
            self.in_flight = self.in_flight + 1;
            Action::Admit(index)
        } else if self.in_flight > 0 {
            Action::Wait
        } else {
            proof {
                lemma_count_filled_bound(self@.slots);
            }
            Action::Finish
        }
    }

    /// Whether `event` can be what a job of this run handed back.
    pub fn accepts(&self, event: &JobEvent) -> (ok: bool)
        requires
            self@.wf(),
        ensures
            ok == self@.accepts(event@),
    {
        if self.failure.is_some() {
            return true;
        }
        if self.in_flight == 0 {
            return false;
        }
        match event {
            JobEvent::Completed(out) => out.index < self.next_index && self.slots[out.index].is_none(),
            _ => true,
        }
    }

    /// Records what a job handed back.
    pub fn record(&mut self, event: JobEvent)
        requires
            old(self)@.wf(),
            old(self)@.accepts(event@),
        ensures
            final(self)@ == old(self)@.record(event@),
            final(self)@.wf(),
    {
        if self.failure.is_some() {
            return ;
        }
        match event {
            JobEvent::Completed(out) => {
                let index = out.index;
                proof {
                    lemma_count_filled_update(self@.slots, index as int, out@.proved);
                }
                self.in_flight = self.in_flight - 1;
                self.slots.set(index, Some(out));
                assert(self@.slots =~= old(self)@.slots.update(index as int, Some(out@.proved)));
            },
            JobEvent::Failed(e) => {
                self.in_flight = 0;
                self.failure = Some(e);
            },
            JobEvent::JoinFailed(detail) => {
                let mut text = String::from_str("join error: ");
                text.append(detail.as_str());
                self.in_flight = 0;
                self.failure = Some(ProverError::Io(text));
            },
        }
    }

    /// Whether the run is over: it has failed, or every input has its result.
    pub fn is_settled(&self) -> (settled: bool)
        requires
            self@.wf(),
        ensures
            settled == self@.is_settled(),
    {
        proof {
            lemma_count_filled_bound(self@.slots);
        }
        self.failure.is_some() || (self.next_index == self.slots.len() && self.in_flight == 0)
    }

    /// The number of inputs.
    pub fn total(&self) -> (n: usize)
        ensures
            n == self@.total(),
    {
        self.slots.len()
    }

    /// How many jobs may be in flight at once.
    pub fn limit(&self) -> (n: usize)
        ensures
            n == self@.limit,
    {
        self.limit
    }

    /// How many inputs have been admitted.
    pub fn admitted(&self) -> (n: usize)
        ensures
            n == self@.admitted,
    {
        self.next_index
    }

    /// How many jobs are in flight.
    pub fn in_flight(&self) -> (n: usize)
        ensures
            n == self@.in_flight,
    {
        self.in_flight
    }

    /// Whether the run has failed.
    pub fn has_failed(&self) -> (failed: bool)
        ensures
            failed == self@.failure is Some,
    {
        self.failure.is_some()
    }

    /// The type of the task that is run.
    pub fn task_type(&self) -> (task_type: TaskType)
        ensures
            task_type == self@.task_type,
    {
        self.task_type
    }

    /// The mode of the run.
    pub fn mode(&self) -> (mode: ExecutionMode)
        ensures
            mode == self@.mode(),
    {
        if self.limit <= 1 {
            ExecutionMode::SingleLane
        } else {
            ExecutionMode::Bounded
        }
    }

    /// Ends a settled run: the first error if there was one, and no part of
    /// an outcome with it; else the proofs and hashes in input order, with
    /// the task-level hash combined from those hashes.
    pub fn finish(self) -> (result: Result<PipelineOutcome, ProverError>)
        requires
            self@.wf(),
            self@.is_settled(),
        ensures
            outcome_view(result) == self@.outcome(),
    {
        let ghost before = self@;
        let Scheduler { task_type, slots, failure, .. } = self;
        match failure {
            Some(e) => Err(e),
            None => {
                let ghost filled = slots@;
                assert forall|i: int| 0 <= i < filled.len() implies filled[i] is Some by {
                    assert(before.slots[i] is Some);
                }
                let mut rest = reversed(slots);
                let mut proofs: Vec<Proof> = Vec::new();
                let mut proof_hashes: Vec<String> = Vec::new();
                while rest.len() > 0
                    invariant
                        forall|i: int| 0 <= i < filled.len() ==> filled[i] is Some,
                        rest@.len() + proofs@.len() == filled.len(),
                        proof_hashes@.len() == proofs@.len(),
                        forall|i: int|
                            0 <= i < rest@.len() ==> rest@[i] == filled[filled.len() - 1 - i],
                        forall|i: int|
                            0 <= i < proofs@.len() ==> proofs@[i]@ == filled[i]->0@.proved.proof,
                        forall|i: int|
                            0 <= i < proofs@.len() ==> proof_hashes@[i]@
                                == filled[i]->0@.proved.hash,
                    decreases rest@.len(),
                {
                    let next = rest.pop();
                    match next {
                        Some(Some(out)) => {
                            proofs.push(out.proof);
                            proof_hashes.push(out.hash);
                        },
                        _ => {
                            assert(false);
                        },
                    }
                }
                let combined = task_type.combine(proof_hashes.as_slice());
                let outcome = PipelineOutcome { proofs, combined_hash: combined, proof_hashes };
                proof {
                    let results = before.results();
                    assert(outcome@.proofs =~= proofs_of(results));
                    assert(outcome@.proof_hashes =~= hashes_of(results));
                }
                Ok(outcome)
            },
        }
    }
}

} // verus!
