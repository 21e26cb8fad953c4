//! Commit of settled tool batches.

use vstd::prelude::*;

use crate::capability::PolicyProgress;
use crate::column::{entities_of, sources_of, Entity};
use crate::effect::{
    CanonicalError, CanonicalErrorView, EffectOutput, EffectOutputView, ModelEffectInputView,
    OperationOutcome, OperationOutcomeView, OperationPhase, ToolEffectInput, ToolEffectInputView,
    ToolEffectOutput, ToolEffectOutputView, TranscriptEntry, TranscriptEntryView,
};
use crate::fold::lemma_fold_next;
use crate::prepare_model::{find_limit, known_limit};
use crate::run::{RunRecord, RunRecordView, RunState, RunStateView, ToolBatchState};
use crate::sorting::{
    lemma_sort_rows, row_values, sort_rows, sort_values, KeyPart, KeyPartView, KeyView,
};
use crate::text::same_optional_text;
use crate::world::{OperationsView, World, WorldView};

verus! {

/// The sort row of a tool operation: its position in the model output.
pub open spec fn index_row(w: WorldView, operation: Entity) -> (KeyView, Entity) {
    (seq![KeyPartView::Number(w.operations.tool_inputs[operation].index as u64)], operation)
}

/// The operations of a batch in the order in which the model asked for them.
pub open spec fn batch_order(w: WorldView, batch: Entity) -> Seq<Entity> {
    let ids = sources_of(w.operations.operation_of_batch, batch);
    row_values(sort_rows(Seq::new(ids.len(), |i: int| index_row(w, ids[i]))))
}

/// Whether a tool operation is settled.
pub open spec fn tool_settled(w: WorldView, operation: Entity) -> bool {
    &&& w.operations.tool_inputs.contains_key(operation)
    &&& w.operations.states.contains_key(operation)
    &&& w.operations.states[operation].phase is Settled
}

/// Outcome of a settled operation.
pub open spec fn outcome_of(w: WorldView, operation: Entity) -> OperationOutcomeView {
    w.operations.states[operation].phase->Settled_0
}

/// Whether every operation of a batch is settled and its run waits for it.
pub open spec fn batch_commit_due(w: WorldView, batch: Entity) -> bool {
    let ids = sources_of(w.operations.operation_of_batch, batch);
    &&& w.operations.batches.contains_key(batch)
    &&& w.operations.batch_of.contains_key(batch)
    &&& !w.operations.batches[batch].committed
    &&& ids.len() > 0
    &&& w.operations.batches[batch].expected == ids.len()
    &&& forall|i: int| 0 <= i < ids.len() ==> tool_settled(w, #[trigger] ids[i])
    &&& w.runs.states.contains_key(w.operations.batch_of[batch])
    &&& w.runs.records.contains_key(w.operations.batch_of[batch])
    &&& w.runs.states[w.operations.batch_of[batch]] == (RunStateView::WaitingTools { batch })
}

/// Error of the first operation at `from` or later that failed.
pub open spec fn first_failure(w: WorldView, order: Seq<Entity>, from: int) -> Option<
    CanonicalErrorView,
>
    decreases order.len() - from,
{
    if from < 0 || from >= order.len() {
        None
    } else {
        match outcome_of(w, order[from]) {
            OperationOutcomeView::Failure(error) => Some(error),
            OperationOutcomeView::Success(_) => first_failure(w, order, from + 1),
        }
    }
}

/// Whether an outcome answers the call of a tool operation.
pub open spec fn answers_call(input: ToolEffectInputView, outcome: OperationOutcomeView) -> bool {
    match outcome {
        OperationOutcomeView::Success(EffectOutputView::Tool(output)) => {
            &&& output.call_id == input.call_id
            &&& output.provider_result_id == input.provider_result_id
            &&& output.provider_call_id == input.provider_call_id
            &&& output.name == input.decision.name
        },
        _ => false,
    }
}

/// Whether every outcome answers its call.
pub open spec fn all_answered(w: WorldView, order: Seq<Entity>) -> bool {
    forall|i: int|
        0 <= i < order.len() ==> answers_call(
            w.operations.tool_inputs[#[trigger] order[i]],
            outcome_of(w, order[i]),
        )
}

/// The results of the operations, in their order.
pub open spec fn batch_results(w: WorldView, order: Seq<Entity>) -> Seq<ToolEffectOutputView> {
    Seq::new(order.len(), |i: int| outcome_of(w, order[i])->Success_0->Tool_0)
}

/// The transcript entry of a tool result.
pub open spec fn result_entry(result: ToolEffectOutputView) -> TranscriptEntryView {
    TranscriptEntryView::ToolResult {
        call_id: result.call_id,
        provider_result_id: result.provider_result_id,
        provider_call_id: result.provider_call_id,
        name: result.name,
        raw: result.raw,
        content: result.presentation,
    }
}

/// The transcript entries of tool results.
pub open spec fn result_entries(results: Seq<ToolEffectOutputView>) -> Seq<TranscriptEntryView> {
    Seq::new(results.len(), |i: int| result_entry(results[i]))
}

/// The world in which a batch is marked as committed.
pub open spec fn with_batch_committed(w: WorldView, batch: Entity) -> WorldView {
    WorldView {
        operations: OperationsView {
            batches: w.operations.batches.insert(
                batch,
                ToolBatchState { committed: true, ..w.operations.batches[batch] },
            ),
            ..w.operations
        },
        ..w
    }
}

/// The world in which a batch ended its run with an error.
pub open spec fn with_batch_failure(
    w: WorldView,
    batch: Entity,
    error: CanonicalErrorView,
) -> WorldView {
    with_batch_committed(
        w.with_run_state(w.operations.batch_of[batch], RunStateView::Failed(error)),
        batch,
    ).progressed()
}

/// The limit of model calls of a run that has used it up.
pub open spec fn spent_budget(w: WorldView, run: Entity) -> Option<u32> {
    match known_limit(w, run) {
        Some(limit) => if w.runs.records[run].next_turn >= limit {
            Some(limit)
        } else {
            None
        },
        None => None,
    }
}

/// The world in which the results of a batch went to the next model call. A run that has used up
/// its model calls keeps the results and fails.
pub open spec fn with_batch_results(
    w: WorldView,
    batch: Entity,
    results: Seq<ToolEffectOutputView>,
) -> WorldView {
    let run = w.operations.batch_of[batch];
    let source = w.operations.batches[batch].source_model_operation;
    let record = RunRecordView {
        transcript: w.runs.records[run].transcript + result_entries(results),
        ..w.runs.records[run]
    };
    let extended = w.with_run_record(run, record);
    if let Some(limit) = spent_budget(w, run) {
        with_batch_failure(extended, batch, CanonicalErrorView::ModelCallBudget { limit })
    } else if w.operations.model_inputs.contains_key(source) && w.operations.accepted_policies.contains_key(
        source,
    ) {
        let operation = w.fresh();
        let input = ModelEffectInputView {
            history: record.transcript,
            tool_results: results,
            ..w.operations.model_inputs[source]
        };
        with_batch_committed(
            extended.with_model_operation(
                run,
                input,
                w.operations.accepted_policies[source],
                PolicyProgress::Accepted,
            ).with_run_state(run, RunStateView::WaitingModel { operation }),
            batch,
        ).progressed()
    } else {
        with_batch_failure(
            extended,
            batch,
            CanonicalErrorView::StaleEntity("source model operation"@),
        )
    }
}

/// The world after one tool batch was committed, if it is due.
pub open spec fn commit_batch_step(w: WorldView, batch: Entity) -> WorldView {
    if !batch_commit_due(w, batch) {
        w
    } else {
        let order = batch_order(w, batch);
        match first_failure(w, order, 0) {
            Some(error) => with_batch_failure(w, batch, error),
            None => if all_answered(w, order) {
                with_batch_results(w, batch, batch_results(w, order))
            } else {
                with_batch_failure(w, batch, CanonicalErrorView::EffectKindMismatch)
            },
        }
    }
}

/// The world after every due tool batch was committed.
pub open spec fn commit_batches(w: WorldView) -> WorldView {
    entities_of(w.operations.batches.dom()).fold_left(
        w,
        |w: WorldView, e: Entity| commit_batch_step(w, e),
    )
}

/// The operations of a batch, if each is settled.
fn settled_operations(world: &World, batch: Entity) -> (r: Option<Vec<Entity>>)
    ensures
        match r {
            Some(order) => {
                let ids = sources_of(world@.operations.operation_of_batch, batch);
                &&& order@ == batch_order(world@, batch)
                &&& order@.len() == ids.len()
                &&& forall|i: int| 0 <= i < ids.len() ==> tool_settled(world@, #[trigger] ids[i])
                &&& forall|i: int|
                    0 <= i < order@.len() ==> tool_settled(world@, #[trigger] order@[i])
            },
            None => {
                let ids = sources_of(world@.operations.operation_of_batch, batch);
                exists|i: int| 0 <= i < ids.len() && !tool_settled(world@, #[trigger] ids[i])
            },
        },
{
    let ids = world.operations.operation_of_batch.sources(batch);
    let mut rows: Vec<(Vec<KeyPart>, Entity)> = Vec::new();
    let mut i: usize = 0;
    while i < ids.len()
        invariant
            i <= ids@.len(),
            ids@ == sources_of(world@.operations.operation_of_batch, batch),
            rows@.len() == i,
            forall|k: int| 0 <= k < i ==> tool_settled(world@, #[trigger] ids@[k]),
            forall|k: int|
                0 <= k < i ==> (#[trigger] rows@[k]).deep_view() == index_row(world@, ids@[k]),
        decreases ids@.len() - i,
    {
        let e = ids[i];
        let index: u32 = match world.operations.tool_inputs.get(e) {
            Some(input) => input.index,
            None => {
                assert(!tool_settled(world@, ids@[i as int]));
                return None;
            },
        };
        let settled = match world.operations.states.get(e) {
            Some(state) => matches!(state.phase, OperationPhase::Settled(_)),
            None => false,
        };
        if !settled {
            assert(!tool_settled(world@, ids@[i as int]));
            return None;
        }
        let key = vec![KeyPart::Number(index as u64)];
        proof {
            assert(key.deep_view() =~= seq![KeyPartView::Number(index as u64)]);
        }
        rows.push((key, e));
        i = i + 1;
    }
    let ghost all = Seq::new(ids@.len(), |k: int| index_row(world@, ids@[k]));
    assert(rows.deep_view() =~= all);
    let order = sort_values(rows);
    proof {
        lemma_sort_rows(all);
        let sorted = sort_rows(all);
        assert(order@ =~= order.deep_view());
        assert forall|k: int| 0 <= k < order@.len() implies tool_settled(
            world@,
            #[trigger] order@[k],
        ) by {
            assert(order@[k] == sorted[k].1);
            sorted.to_multiset_ensures();
            all.to_multiset_ensures();
            assert(sorted.contains(sorted[k]));
            assert(sorted.to_multiset().count(sorted[k]) > 0);
            assert(all.contains(sorted[k]));
            let m = choose|m: int| 0 <= m < all.len() && all[m] == sorted[k];
            assert(tool_settled(world@, ids@[m]));
        }
    }
    Some(order)
}

fn answered(input: &ToolEffectInput, outcome: &OperationOutcome) -> (r: Option<ToolEffectOutput>)
    ensures
        match r {
            Some(output) => answers_call(input@, outcome@) && outcome@->Success_0->Tool_0
                == output@,
            None => !answers_call(input@, outcome@),
        },
{
    match outcome {
        OperationOutcome::Success(EffectOutput::Tool(output)) => {
            if output.call_id == input.call_id && output.provider_result_id
                == input.provider_result_id && same_optional_text(
                &output.provider_call_id,
                &input.provider_call_id,
            ) && output.name == input.decision.name {
                Some(output.clone())
            } else {
                None
            }
        },
        _ => None,
    }
}

/// Error of the first operation that failed.
fn find_failure(world: &World, order: &Vec<Entity>) -> (r: Option<CanonicalError>)
    requires
        forall|i: int| 0 <= i < order@.len() ==> tool_settled(world@, #[trigger] order@[i]),
    ensures
        r.deep_view() == first_failure(world@, order@, 0),
{
    let mut i: usize = 0;
    while i < order.len()
        invariant
            i <= order@.len(),
            forall|k: int| 0 <= k < order@.len() ==> tool_settled(world@, #[trigger] order@[k]),
            first_failure(world@, order@, 0) == first_failure(world@, order@, i as int),
        decreases order@.len() - i,
    {
        assert(tool_settled(world@, order@[i as int]));
        if let Some(state) = world.operations.states.get(order[i]) {
            if let OperationPhase::Settled(OperationOutcome::Failure(error)) = &state.phase {
                return Some(error.clone());
            }
        }
        i = i + 1;
    }
    None
}

/// The results of the operations, if each answers its call.
fn collect_results(world: &World, order: &Vec<Entity>) -> (r: Option<Vec<ToolEffectOutput>>)
    requires
        forall|i: int| 0 <= i < order@.len() ==> tool_settled(world@, #[trigger] order@[i]),
    ensures
        match r {
            Some(results) => all_answered(world@, order@) && results.deep_view() == batch_results(
                world@,
                order@,
            ),
            None => !all_answered(world@, order@),
        },
{
    let mut results: Vec<ToolEffectOutput> = Vec::new();
    let mut i: usize = 0;
    while i < order.len()
        invariant
            i <= order@.len(),
            forall|k: int| 0 <= k < order@.len() ==> tool_settled(world@, #[trigger] order@[k]),
            results@.len() == i,
            forall|k: int|
                0 <= k < i ==> answers_call(
                    world@.operations.tool_inputs[#[trigger] order@[k]],
                    outcome_of(world@, order@[k]),
                ),
            forall|k: int|
                0 <= k < i ==> (#[trigger] results@[k])@ == batch_results(world@, order@)[k],
        decreases order@.len() - i,
    {
        let e = order[i];
        assert(tool_settled(world@, order@[i as int]));
        let mut found: Option<ToolEffectOutput> = None;
        if let Some(input) = world.operations.tool_inputs.get(e) {
            if let Some(state) = world.operations.states.get(e) {
                if let OperationPhase::Settled(outcome) = &state.phase {
                    found = answered(input, outcome);
                }
            }
        }
        match found {
            Some(output) => {
                results.push(output);
            },
            None => {
                assert(!answers_call(
                    world@.operations.tool_inputs[order@[i as int]],
                    outcome_of(world@, order@[i as int]),
                ));
                return None;
            },
        }
        i = i + 1;
    }
    assert(results.deep_view() =~= batch_results(world@, order@));
    Some(results)
}

fn mark_committed(world: &mut World, batch: Entity)
    requires
        old(world)@.operations.batches.contains_key(batch),
    ensures
        final(world)@ == with_batch_committed(old(world)@, batch),
{
    if let Some(state) = world.operations.batches.get(batch) {
        let committed = ToolBatchState {
            source_model_operation: state.source_model_operation,
            expected: state.expected,
            committed: true,
        };
        world.operations.batches.insert(batch, committed);
    }
}

fn fail_batch(world: &mut World, batch: Entity, run: Entity, error: CanonicalError)
    requires
        old(world)@.operations.batches.contains_key(batch),
        old(world)@.operations.batch_of[batch] == run,
    ensures
        final(world)@ == with_batch_failure(old(world)@, batch, error@),
{
    world.set_run_state(run, RunState::Failed(error));
    mark_committed(world, batch);
    world.mark_progress();
}

fn find_spent_budget(world: &World, run: Entity, record: &RunRecord) -> (r: Option<u32>)
    requires
        world@.runs.records[run] == record@,
        world@.runs.records.contains_key(run),
    ensures
        r == spent_budget(world@, run),
{
    match find_limit(world, run, record) {
        Some(limit) => if record.next_turn >= limit {
            Some(limit)
        } else {
            None
        },
        None => None,
    }
}

fn continue_batch(world: &mut World, batch: Entity, run: Entity, results: Vec<ToolEffectOutput>)
    requires
        old(world)@.operations.batches.contains_key(batch),
        old(world)@.operations.batch_of[batch] == run,
        old(world)@.runs.records.contains_key(run),
    ensures
        final(world)@ == with_batch_results(old(world)@, batch, results.deep_view()),
{
    let ghost start = world@;
    let ghost views = results.deep_view();
    let mut record = match world.runs.records.get(run) {
        Some(record) => record.clone(),
        None => {
            return;
        },
    };
    let spent = find_spent_budget(world, run, &record);
    let ghost own = record.transcript.deep_view();
    let mut i: usize = 0;
    assert(own + result_entries(views.take(0)) =~= own);
    while i < results.len()
        invariant
            i <= results@.len(),
            views == results.deep_view(),
            record@ == (RunRecordView {
                transcript: own + result_entries(views.take(i as int)),
                ..start.runs.records[run]
            }),
        decreases results@.len() - i,
    {
        let result = &results[i];
        let ghost so_far = record.transcript.deep_view();
        record.transcript.push(
            TranscriptEntry::ToolResult {
                call_id: result.call_id.clone(),
                provider_result_id: result.provider_result_id.clone(),
                provider_call_id: result.provider_call_id.clone(),
                name: result.name.clone(),
                raw: result.raw.clone(),
                content: result.presentation.clone(),
            },
        );
        proof {
            assert(views[i as int] == result@);
            assert(record.transcript@.last()@ == result_entry(views[i as int]));
            assert(record.transcript.deep_view() =~= so_far.push(result_entry(views[i as int])));
            assert(record.transcript.deep_view() =~= own + result_entries(views.take(i + 1)));
        }
        i = i + 1;
    }
    assert(views.take(i as int) =~= views);
    world.set_run_record(run, record.clone());
    if let Some(limit) = spent {
        fail_batch(world, batch, run, CanonicalError::ModelCallBudget { limit });
        return;
    }
    let source = match world.operations.batches.get(batch) {
        Some(state) => state.source_model_operation,
        None => {
            return;
        },
    };
    let accepted = match world.operations.accepted_policies.get(source) {
        Some(accepted) => Some(accepted.clone()),
        None => None,
    };
    let next = match world.operations.model_inputs.get(source) {
        Some(input) => Some(input.clone()),
        None => None,
    };
    match (next, accepted) {
        (Some(mut input), Some(accepted)) => {
            input.history = record.transcript.clone();
            assert(input.history.deep_view() =~= record.transcript.deep_view());
            input.tool_results = results;
            let operation = world.spawn_model_operation(
                run,
                input,
                accepted,
                PolicyProgress::Accepted,
            );
            world.set_run_state(run, RunState::WaitingModel { operation });
            mark_committed(world, batch);
            world.mark_progress();
        },
        _ => {
            fail_batch(
                world,
                batch,
                run,
                CanonicalError::StaleEntity("source model operation".to_owned()),
            );
        },
    }
}

/// Commits one tool batch, if it is due.
pub fn commit_tool_batch(world: &mut World, batch: Entity)
    ensures
        final(world)@ == commit_batch_step(old(world)@, batch),
{
    let run = match world.operations.batch_of.get(batch) {
        Some(run) => *run,
        None => {
            return;
        },
    };
    let expected: u32 = match world.operations.batches.get(batch) {
        Some(state) => {
            if state.committed {
                return;
            }
            state.expected
        },
        None => {
            return;
        },
    };
    let order = match settled_operations(world, batch) {
        Some(order) => order,
        None => {
            return;
        },
    };
    if order.len() == 0 || expected as u64 != order.len() as u64 {
        return;
    }
    if !world.runs.records.contains(run) {
        return;
    }
    match world.runs.states.get(run) {
        Some(RunState::WaitingTools { batch: waiting }) => {
            if *waiting != batch {
                return;
            }
        },
        _ => {
            return;
        },
    }
    assert(batch_commit_due(world@, batch));
    if let Some(error) = find_failure(world, &order) {
        fail_batch(world, batch, run, error);
        return;
    }
    match collect_results(world, &order) {
        Some(results) => {
            continue_batch(world, batch, run, results);
        },
        None => {
            fail_batch(world, batch, run, CanonicalError::EffectKindMismatch);
        },
    }
}

/// Commits every due tool batch.
pub fn commit_tool_batches(world: &mut World)
    ensures
        final(world)@ == commit_batches(old(world)@),
{
    broadcast use crate::fold::group_fold;

    let ids = world.operations.batches.entities();
    let ghost start = world@;
    let ghost step = |w: WorldView, e: Entity| commit_batch_step(w, e);
    let mut i: usize = 0;
    while i < ids.len()
        invariant
            i <= ids@.len(),
            step == (|w: WorldView, e: Entity| commit_batch_step(w, e)),
            world@ == ids@.take(i as int).fold_left(start, step),
        decreases ids@.len() - i,
    {
        proof {
            lemma_fold_next(ids@, i as int, start, step);
        }
        commit_tool_batch(world, ids[i]);
        i = i + 1;
    }
}

} // verus!
