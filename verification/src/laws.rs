//! What holds of every run, whatever the driver does and in whatever order
//! the jobs complete.

use crate::digest::keccak256_hex;
use crate::error::ProverErrorView;
use crate::outcome::{JobOutputView, PipelineOutcomeView, ProvedInput};
use crate::pipeline::conclusion;
use crate::scheduler::{
    assemble, count_filled, lanes_for, lemma_count_filled_bound, lemma_count_filled_none,
    lemma_count_filled_update, mode_for, Action, JobEventView, SchedulerView,
};
use crate::task::{combined_hash, TaskType};
use vstd::prelude::*;

verus! {

/// One move of a driver: it asks for the next action, or it records what a
/// job handed back.
pub ghost enum Step {
    Ask,
    Record(JobEventView),
}

/// The state after one move.
pub open spec fn step(state: SchedulerView, s: Step) -> SchedulerView {
    match s {
        Step::Ask => state.after_action(),
        Step::Record(event) => state.record(event),
    }
}

/// Whether a driver may make the move `s` in `state`.
pub open spec fn step_allowed(state: SchedulerView, s: Step) -> bool {
    match s {
        Step::Ask => true,
        Step::Record(event) => state.accepts(event),
    }
}

/// The state after the moves `steps`, made in order.
pub open spec fn run(state: SchedulerView, steps: Seq<Step>) -> SchedulerView
    decreases steps.len(),
{
    if steps.len() == 0 {
        state
    } else {
        step(run(state, steps.drop_last()), steps.last())
    }
}

/// Whether a driver may make the moves `steps`, in order, from `state`.
pub open spec fn allowed(state: SchedulerView, steps: Seq<Step>) -> bool
    decreases steps.len(),
{
    steps.len() == 0 || (allowed(state, steps.drop_last()) && step_allowed(
        run(state, steps.drop_last()),
        steps.last(),
    ))
}

/// Whether every filled slot of `state` holds the result that `results`
/// gives for its input.
pub open spec fn agrees(state: SchedulerView, results: Seq<ProvedInput>) -> bool {
    forall|i: int|
        0 <= i < state.slots.len() && state.slots[i] is Some ==> i < results.len()
            && state.slots[i] == Some(results[i])
}

/// Whether every job whose completion is among `steps` succeeded with the
/// result that `results` gives for its input.
pub open spec fn all_succeed(steps: Seq<Step>, results: Seq<ProvedInput>) -> bool {
    forall|k: int|
        0 <= k < steps.len() ==> (#[trigger] steps[k] matches Step::Record(event) ==> (
        event matches JobEventView::Completed(out) && out.index < results.len() && out.proved
            == results[out.index as int]))
}

/// What the jobs hand back when proving gives `proofs`, one for each input:
/// each proof with its content hash.
pub open spec fn proved_inputs(proofs: Seq<Seq<u8>>) -> Seq<ProvedInput> {
    Seq::new(proofs.len(), |i: int| ProvedInput { proof: proofs[i], hash: keccak256_hex(proofs[i]) })
}

/// A run starts in a state that meets the invariant.
pub proof fn lemma_initial_wf(task_type: TaskType, inputs: nat, max_concurrency: nat)
    requires
        1 <= inputs <= usize::MAX,
    ensures
        SchedulerView::initial(task_type, inputs, max_concurrency).wf(),
        SchedulerView::initial(task_type, inputs, max_concurrency).total() == inputs,
{
    lemma_count_filled_none(SchedulerView::initial(task_type, inputs, max_concurrency).slots);
}

/// The mode of a run is chosen by the bound that was asked for and the
/// number of inputs alone: a single lane for a bound of zero or one, or for
/// a single input, and else as many lanes as were asked for.
pub proof fn lemma_mode_by_bound_and_inputs(task_type: TaskType, inputs: nat, max_concurrency: nat)
    ensures
        SchedulerView::initial(task_type, inputs, max_concurrency).mode() == mode_for(
            max_concurrency,
            inputs,
        ),
        mode_for(max_concurrency, inputs) is SingleLane <==> (max_concurrency <= 1 || inputs <= 1),
        mode_for(max_concurrency, inputs) is SingleLane ==> SchedulerView::initial(
            task_type,
            inputs,
            max_concurrency,
        ).limit == 1,
        mode_for(max_concurrency, inputs) is Bounded ==> SchedulerView::initial(
            task_type,
            inputs,
            max_concurrency,
        ).limit == max_concurrency,
{
}

/// Every move that a driver may make keeps the invariant, the limit, the
/// number of inputs and the task type.
pub proof fn lemma_step_keeps_invariant(state: SchedulerView, s: Step)
    requires
        state.wf(),
        step_allowed(state, s),
    ensures
        step(state, s).wf(),
        step(state, s).limit == state.limit,
        step(state, s).total() == state.total(),
        step(state, s).task_type == state.task_type,
{
    match s {
        Step::Ask => {},
        Step::Record(event) => {
            if state.failure is None {
                match event {
                    JobEventView::Completed(out) => {
                        lemma_count_filled_update(state.slots, out.index as int, out.proved);
                    },
                    _ => {},
                }
            }
        },
    }
}

/// The invariant holds all along a run.
pub proof fn lemma_run_keeps_invariant(state: SchedulerView, steps: Seq<Step>)
    requires
        state.wf(),
        allowed(state, steps),
    ensures
        run(state, steps).wf(),
        run(state, steps).limit == state.limit,
        run(state, steps).total() == state.total(),
        run(state, steps).task_type == state.task_type,
    decreases steps.len(),
{
    if steps.len() > 0 {
        lemma_run_keeps_invariant(state, steps.drop_last());
        lemma_step_keeps_invariant(run(state, steps.drop_last()), steps.last());
    }
}

/// The concurrency bound: at no point of a run are more jobs in flight than
/// were asked for, one lane at the least.
pub proof fn lemma_concurrency_bound(
    task_type: TaskType,
    inputs: nat,
    max_concurrency: nat,
    steps: Seq<Step>,
)
    requires
        1 <= inputs <= usize::MAX,
        allowed(SchedulerView::initial(task_type, inputs, max_concurrency), steps),
    ensures
        run(SchedulerView::initial(task_type, inputs, max_concurrency), steps).in_flight
            <= lanes_for(max_concurrency, inputs),
        lanes_for(max_concurrency, inputs) <= if max_concurrency >= 1 {
            max_concurrency
        } else {
            1
        },
        run(SchedulerView::initial(task_type, inputs, max_concurrency), steps).in_flight
            <= inputs,
{
    let start = SchedulerView::initial(task_type, inputs, max_concurrency);
    lemma_initial_wf(task_type, inputs, max_concurrency);
    lemma_run_keeps_invariant(start, steps);
}

/// The window is kept full: a driver is told to wait only when the limit is
/// reached or every input has been admitted, and some job is in flight.
pub proof fn lemma_wait_means_window_full(state: SchedulerView)
    requires
        state.wf(),
        state.next_action() is Wait,
    ensures
        state.in_flight > 0,
        state.in_flight == state.limit || state.admitted == state.total(),
{
}

/// Inputs are admitted in input order: an admission is always for the
/// lowest index not yet admitted.
pub proof fn lemma_admission_in_input_order(state: SchedulerView)
    requires
        state.wf(),
        state.next_action() is Admit,
    ensures
        state.next_action() == Action::Admit(state.admitted as usize),
        state.after_action().admitted == state.admitted + 1,
        state.after_action().in_flight == state.in_flight + 1,
        state.after_action().slots == state.slots,
{
}

/// A run is finished only when every input has its result.
pub proof fn lemma_finish_means_complete(state: SchedulerView)
    requires
        state.wf(),
        state.next_action() is Finish,
    ensures
        state.is_complete(),
        state.in_flight == 0,
        state.admitted == state.total(),
{
    lemma_count_filled_bound(state.slots);
}

/// `count` requests for the next action, one after the other.
pub open spec fn asks(count: nat) -> Seq<Step> {
    Seq::new(count, |i: int| Step::Ask)
}

/// The smaller of two numbers.
pub open spec fn smaller(a: nat, b: nat) -> nat {
    if a <= b {
        a
    } else {
        b
    }
}

/// The first batch: a driver that keeps asking at the start of a run is
/// handed the first inputs in order, as many as there are lanes or, where
/// there are fewer, inputs; then it is told to wait.
pub proof fn lemma_first_batch(task_type: TaskType, inputs: nat, max_concurrency: nat, count: nat)
    requires
        1 <= inputs <= usize::MAX,
    ensures
        allowed(SchedulerView::initial(task_type, inputs, max_concurrency), asks(count)),
        run(SchedulerView::initial(task_type, inputs, max_concurrency), asks(count)).admitted
            == smaller(count, smaller(lanes_for(max_concurrency, inputs), inputs)),
        run(SchedulerView::initial(task_type, inputs, max_concurrency), asks(count)).in_flight
            == smaller(count, smaller(lanes_for(max_concurrency, inputs), inputs)),
        run(SchedulerView::initial(task_type, inputs, max_concurrency), asks(count)).slots
            == SchedulerView::initial(task_type, inputs, max_concurrency).slots,
        run(SchedulerView::initial(task_type, inputs, max_concurrency), asks(count)).failure
            is None,
        run(
            SchedulerView::initial(task_type, inputs, max_concurrency),
            asks(count),
        ).next_action() == if count < smaller(lanes_for(max_concurrency, inputs), inputs) {
            Action::Admit(count as usize)
        } else {
            Action::Wait
        },
    decreases count,
{
    let start = SchedulerView::initial(task_type, inputs, max_concurrency);
    if count > 0 {
        lemma_first_batch(task_type, inputs, max_concurrency, (count - 1) as nat);
        assert(asks(count).drop_last() =~= asks((count - 1) as nat));
        assert(asks(count).last() == Step::Ask);
    }
    lemma_initial_wf(task_type, inputs, max_concurrency);
    lemma_run_keeps_invariant(start, asks(count));
}

/// The filled slots of a table all of whose filled slots lie below `bound`
/// are as many as those below `bound`.
proof fn lemma_count_filled_below(slots: Seq<Option<ProvedInput>>, bound: int)
    requires
        0 <= bound <= slots.len(),
        forall|i: int| bound <= i < slots.len() ==> slots[i] is None,
    ensures
        count_filled(slots) == count_filled(slots.take(bound)),
    decreases slots.len(),
{
    if slots.len() > bound {
        assert(slots.drop_last().take(bound) =~= slots.take(bound));
        lemma_count_filled_below(slots.drop_last(), bound);
    } else {
        assert(slots.take(bound) =~= slots);
    }
}

/// A single lane works strictly in input order: an input is admitted only
/// when every input before it has its result, and no job is in flight then.
pub proof fn lemma_single_lane_in_order(state: SchedulerView)
    requires
        state.wf(),
        state.limit == 1,
        state.next_action() is Admit,
    ensures
        state.in_flight == 0,
        forall|j: int| 0 <= j < state.admitted ==> state.slots[j] is Some,
{
    let below = state.slots.take(state.admitted as int);
    lemma_count_filled_below(state.slots, state.admitted as int);
    lemma_count_filled_bound(below);
    assert forall|j: int| 0 <= j < state.admitted implies state.slots[j] is Some by {
        assert(below[j] == state.slots[j]);
    }
}

/// The first error wins: once a run has failed, no move changes its state,
/// so nothing more is admitted, what abandoned jobs hand back leaves no
/// trace, and the run ends with that error.
pub proof fn lemma_first_error_wins(state: SchedulerView, steps: Seq<Step>)
    requires
        state.failure is Some,
    ensures
        allowed(state, steps),
        run(state, steps) == state,
        run(state, steps).next_action() is Abandon,
        run(state, steps).outcome() == Err::<PipelineOutcomeView, ProverErrorView>(
            state.failure->0,
        ),
    decreases steps.len(),
{
    if steps.len() > 0 {
        lemma_first_error_wins(state, steps.drop_last());
    }
}

/// A failed job ends the run at once with the job's own error, whatever the
/// other jobs have done or will do.
pub proof fn lemma_failure_ends_run(state: SchedulerView, error: ProverErrorView)
    requires
        state.wf(),
        state.failure is None,
    ensures
        state.record(JobEventView::Failed(error)).failure == Some(error),
        state.record(JobEventView::Failed(error)).in_flight == 0,
        state.record(JobEventView::Failed(error)).is_settled(),
        state.record(JobEventView::Failed(error)).outcome() == Err::<
            PipelineOutcomeView,
            ProverErrorView,
        >(error),
{
}

/// While every job succeeds, the slots hold the jobs' results at the jobs'
/// own indices, in whatever order the jobs complete.
pub proof fn lemma_run_agrees(state: SchedulerView, steps: Seq<Step>, results: Seq<ProvedInput>)
    requires
        state.wf(),
        state.failure is None,
        agrees(state, results),
        allowed(state, steps),
        all_succeed(steps, results),
    ensures
        run(state, steps).failure is None,
        agrees(run(state, steps), results),
    decreases steps.len(),
{
    if steps.len() > 0 {
        let before = steps.drop_last();
        assert forall|k: int| 0 <= k < before.len() implies (#[trigger] before[k] matches Step::Record(
            event,
        ) ==> (event matches JobEventView::Completed(out) && out.index < results.len()
            && out.proved == results[out.index as int])) by {
            assert(before[k] == steps[k]);
        }
        lemma_run_agrees(state, before, results);
        lemma_run_keeps_invariant(state, before);
        assert(steps[steps.len() - 1] == steps.last());
    }
}

/// A complete state whose slots agree with `results` ends in the outcome
/// assembled from `results`, in input order.
pub proof fn lemma_complete_outcome(state: SchedulerView, results: Seq<ProvedInput>)
    requires
        state.is_complete(),
        agrees(state, results),
        results.len() == state.total(),
    ensures
        state.outcome() == Ok::<PipelineOutcomeView, ProverErrorView>(
            assemble(state.task_type, results),
        ),
{
    assert(state.results() =~= results);
}

/// Results come out in input order. When every job succeeds, a run that
/// reaches its end hands back, for each input, the result of that input's
/// job at that input's position, whatever the order of completion and
/// whatever the number of jobs run at a time.
pub proof fn lemma_outcome_in_input_order(
    task_type: TaskType,
    max_concurrency: nat,
    steps: Seq<Step>,
    results: Seq<ProvedInput>,
)
    requires
        1 <= results.len() <= usize::MAX,
        allowed(SchedulerView::initial(task_type, results.len(), max_concurrency), steps),
        all_succeed(steps, results),
        run(
            SchedulerView::initial(task_type, results.len(), max_concurrency),
            steps,
        ).next_action() is Finish,
    ensures
        run(SchedulerView::initial(task_type, results.len(), max_concurrency), steps).outcome()
            == Ok::<PipelineOutcomeView, ProverErrorView>(assemble(task_type, results)),
{
    let start = SchedulerView::initial(task_type, results.len(), max_concurrency);
    lemma_initial_wf(task_type, results.len(), max_concurrency);
    lemma_run_agrees(start, steps, results);
    lemma_run_keeps_invariant(start, steps);
    lemma_finish_means_complete(run(start, steps));
    lemma_complete_outcome(run(start, steps), results);
}

/// One lane or many, the result is the same. Two runs of one task in which
/// every job succeeds with the same result for the same input end in the
/// same proofs, the same hashes and the same combined hash, whatever the
/// two bounds and the two orders of completion.
pub proof fn lemma_modes_agree(
    task_type: TaskType,
    results: Seq<ProvedInput>,
    first_bound: nat,
    first_steps: Seq<Step>,
    second_bound: nat,
    second_steps: Seq<Step>,
)
    requires
        1 <= results.len() <= usize::MAX,
        allowed(SchedulerView::initial(task_type, results.len(), first_bound), first_steps),
        allowed(SchedulerView::initial(task_type, results.len(), second_bound), second_steps),
        all_succeed(first_steps, results),
        all_succeed(second_steps, results),
        run(
            SchedulerView::initial(task_type, results.len(), first_bound),
            first_steps,
        ).next_action() is Finish,
        run(
            SchedulerView::initial(task_type, results.len(), second_bound),
            second_steps,
        ).next_action() is Finish,
    ensures
        run(SchedulerView::initial(task_type, results.len(), first_bound), first_steps).outcome()
            == run(
            SchedulerView::initial(task_type, results.len(), second_bound),
            second_steps,
        ).outcome(),
{
    lemma_outcome_in_input_order(task_type, first_bound, first_steps, results);
    lemma_outcome_in_input_order(task_type, second_bound, second_steps, results);
}

/// The shape of a successful outcome: one proof and one hash for each
/// input, and the combined hash is the combination of exactly those hashes.
pub proof fn lemma_outcome_shape(state: SchedulerView)
    requires
        state.is_complete(),
    ensures
        state.outcome() is Ok,
        state.outcome()->Ok_0.proofs.len() == state.total(),
        state.outcome()->Ok_0.proof_hashes.len() == state.total(),
        state.outcome()->Ok_0.combined_hash == combined_hash(
            state.task_type,
            state.outcome()->Ok_0.proof_hashes,
        ),
        forall|i: int|
            0 <= i < state.total() ==> state.outcome()->Ok_0.proofs[i] == state.slots[i]->0.proof
                && state.outcome()->Ok_0.proof_hashes[i] == state.slots[i]->0.hash,
{
}

/// Hashing is a function of the proof: a job that is handed a proof
/// concludes with that proof's content hash, at whatever index and however
/// often it is done.
pub proof fn lemma_hash_deterministic(first_index: nat, second_index: nat, proof_bytes: Seq<u8>)
    ensures
        conclusion(first_index, Ok(proof_bytes)).result->Ok_0.proved.hash == keccak256_hex(
            proof_bytes,
        ),
        conclusion(first_index, Ok(proof_bytes)).result->Ok_0.proved.hash == conclusion(
            second_index,
            Ok(proof_bytes),
        ).result->Ok_0.proved.hash,
{
}

/// Running a task again gives the same hashes. When proving gives `proofs`
/// and each job concludes as the pipeline says, every run that reaches its
/// end hands back those proofs, in input order, each with its content hash.
pub proof fn lemma_rerun_gives_same_hashes(
    task_type: TaskType,
    max_concurrency: nat,
    steps: Seq<Step>,
    proofs: Seq<Seq<u8>>,
)
    requires
        1 <= proofs.len() <= usize::MAX,
        allowed(SchedulerView::initial(task_type, proofs.len(), max_concurrency), steps),
        forall|k: int|
            0 <= k < steps.len() ==> (#[trigger] steps[k] matches Step::Record(event) ==> (
            event matches JobEventView::Completed(out) && out.index < proofs.len() && Ok::<
                JobOutputView,
                ProverErrorView,
            >(out) == conclusion(out.index, Ok(proofs[out.index as int])).result)),
        run(
            SchedulerView::initial(task_type, proofs.len(), max_concurrency),
            steps,
        ).next_action() is Finish,
    ensures
        run(SchedulerView::initial(task_type, proofs.len(), max_concurrency), steps).outcome()
            == Ok::<PipelineOutcomeView, ProverErrorView>(
            assemble(task_type, proved_inputs(proofs)),
        ),
        assemble(task_type, proved_inputs(proofs)).proofs == proofs,
        assemble(task_type, proved_inputs(proofs)).proof_hashes == Seq::new(
            proofs.len(),
            |i: int| keccak256_hex(proofs[i]),
        ),
{
    let results = proved_inputs(proofs);
    assert forall|k: int| 0 <= k < steps.len() implies (#[trigger] steps[k] matches Step::Record(
        event,
    ) ==> (event matches JobEventView::Completed(out) && out.index < results.len() && out.proved
        == results[out.index as int])) by {}
    lemma_outcome_in_input_order(task_type, max_concurrency, steps, results);
    assert(assemble(task_type, results).proofs =~= proofs);
    assert(assemble(task_type, results).proof_hashes =~= Seq::new(
        proofs.len(),
        |i: int| keccak256_hex(proofs[i]),
    ));
}

/// Reporting a failure leaves the error as it is: a job whose proving
/// failed hands on exactly the error it was given, with or without a
/// report, and a report is made for failures of the proof computation only.
pub proof fn lemma_report_leaves_error(index: nat, error: ProverErrorView)
    ensures
        conclusion(index, Err(error)).result == Err::<JobOutputView, ProverErrorView>(error),
        conclusion(index, Err(error)).report is Some <==> error.is_proving_failure(),
{
}

} // verus!
