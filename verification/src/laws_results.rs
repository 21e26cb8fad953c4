//! What a run makes of the results of its stores and tools.

use vstd::prelude::*;

use crate::capability::{PolicyProgress, RetrievedDocumentView};
use crate::column::{lemma_sources, sources_of, Entity};
use crate::commit_store::commit_stores;
use crate::commit_tools::{
    all_answered, answers_call, batch_commit_due, batch_order, commit_batch_step, first_failure,
    index_row, outcome_of, tool_settled,
};
use crate::effect::{
    CanonicalErrorView, EffectOutputView, OperationKind, OperationOutcomeView, OperationPhaseView,
    StoreEffectOutputView, StoreOperationView, ToolEffectOutputView, TranscriptEntryView,
};
use crate::laws::law_batch_order_is_call_order;
use crate::laws_commits::law_store_commits_reach_their_run_only;
use crate::run::RunStateView;
use crate::sorting::{lemma_sort_rows, row_values, sort_rows};
use crate::text::decimal_text;
use crate::world::WorldView;

verus! {

/// Whether a run waits for a store operation, and the operation is settled.
pub open spec fn store_settled(
    w: WorldView,
    operation: Entity,
    run: Entity,
    outcome: OperationOutcomeView,
) -> bool {
    &&& w.operations.store_inputs.dom().finite()
    &&& w.operations.store_inputs.contains_key(operation)
    &&& w.operations.operation_of.contains_key(operation)
    &&& w.operations.operation_of[operation] == run
    &&& w.operations.states.contains_key(operation)
    &&& w.operations.states[operation].phase == OperationPhaseView::Settled(outcome)
    &&& w.runs.states.contains_key(run)
    &&& w.runs.states[run] == (RunStateView::WaitingStore { operation })
    &&& w.runs.records.contains_key(run)
}

/// A conversation that was loaded stands before the transcript of the run, which is queued again.
pub proof fn law_loaded_conversations_come_first(
    w: WorldView,
    operation: Entity,
    run: Entity,
    history: Seq<TranscriptEntryView>,
)
    requires
        store_settled(
            w,
            operation,
            run,
            OperationOutcomeView::Success(
                EffectOutputView::Store(StoreEffectOutputView::LoadedConversation(history)),
            ),
        ),
        w.operations.store_inputs[operation].operation is LoadConversation,
    ensures
        ({
            let old = w.runs.records[run];
            let new = commit_stores(w).runs.records[run];
            &&& commit_stores(w).runs.states[run] is Queued
            &&& new.memory_loaded
            &&& new.transcript.len() == history.len() + old.transcript.len()
            &&& forall|i: int|
                0 <= i < history.len() ==> new.transcript[i] == #[trigger] history[i]
            &&& forall|i: int|
                0 <= i < old.transcript.len() ==> new.transcript[history.len() + i]
                    == #[trigger] old.transcript[i]
            &&& new.memory_store == old.memory_store
            &&& new.conversation == old.conversation
            &&& new.retrieval_loaded == old.retrieval_loaded
            &&& new.prompt == old.prompt
            &&& new.usage == old.usage
            &&& new.next_turn == old.next_turn
        }),
{
    law_store_commits_reach_their_run_only(w, operation);
}

/// A run takes the documents that were found for it where there are no more than were asked for,
/// and is queued again; otherwise it fails and says how many there were.
pub proof fn law_documents_are_taken_up_to_the_limit(
    w: WorldView,
    operation: Entity,
    run: Entity,
    documents: Seq<RetrievedDocumentView>,
)
    requires
        store_settled(
            w,
            operation,
            run,
            OperationOutcomeView::Success(
                EffectOutputView::Store(StoreEffectOutputView::Retrieved(documents)),
            ),
        ),
        w.operations.store_inputs[operation].operation is Retrieve,
    ensures
        ({
            let limit = w.operations.store_inputs[operation].operation->limit;
            let old = w.runs.records[run];
            let new = commit_stores(w).runs.records[run];
            let state = commit_stores(w).runs.states[run];
            &&& documents.len() <= limit ==> {
                &&& state is Queued
                &&& new.retrieved_documents == documents
                &&& new.retrieval_loaded
                &&& new.transcript == old.transcript
                &&& new.memory_loaded == old.memory_loaded
                &&& new.prompt == old.prompt
                &&& new.usage == old.usage
            }
            &&& documents.len() > limit ==> {
                &&& state == RunStateView::Failed(
                    CanonicalErrorView::Store {
                        message: "retrieval returned "@ + decimal_text(documents.len())
                            + " documents for limit "@ + decimal_text(limit as nat),
                        retryable: false,
                    },
                )
                &&& new == old
            }
        }),
{
    law_store_commits_reach_their_run_only(w, operation);
    let limit = w.operations.store_inputs[operation].operation->limit;
    reveal_with_fuel(crate::text::concatenation, 5);
    let pieces = seq![
        "retrieval returned "@,
        decimal_text(documents.len()),
        " documents for limit "@,
        decimal_text(limit as nat),
    ];
    assert(crate::text::concatenation(pieces) =~= "retrieval returned "@ + decimal_text(
        documents.len(),
    ) + " documents for limit "@ + decimal_text(limit as nat));
}

/// A run whose conversation is persisted completes with the output that waited for it.
pub proof fn law_persisted_runs_complete(w: WorldView, operation: Entity, run: Entity)
    requires
        store_settled(
            w,
            operation,
            run,
            OperationOutcomeView::Success(EffectOutputView::Store(StoreEffectOutputView::Persisted)),
        ),
        w.operations.store_inputs[operation].operation is PersistConversation,
        w.runs.records[run].pending_output is Some,
    ensures
        ({
            let old = w.runs.records[run];
            let new = commit_stores(w).runs.records[run];
            &&& commit_stores(w).runs.states[run] == RunStateView::Completed(old.pending_output->0)
            &&& new.pending_output is None
            &&& new.transcript == old.transcript
            &&& new.usage == old.usage
        }),
{
    law_store_commits_reach_their_run_only(w, operation);
}

/// Whether a result is one that an operation of a store can have.
pub open spec fn fits_operation(
    operation: StoreOperationView,
    output: StoreEffectOutputView,
) -> bool {
    match operation {
        StoreOperationView::LoadConversation { .. } => output is LoadedConversation,
        StoreOperationView::Retrieve { .. } => output is Retrieved,
        StoreOperationView::PersistConversation { .. } => output is Persisted,
    }
}

/// A store operation that failed fails its run with its error, and one with another result than it
/// was asked for fails it as a mismatch. The record of the run is as it was.
pub proof fn law_failed_stores_fail_the_run(
    w: WorldView,
    operation: Entity,
    run: Entity,
    outcome: OperationOutcomeView,
)
    requires
        store_settled(w, operation, run, outcome),
    ensures
        outcome is Failure ==> commit_stores(w).runs.states[run] == RunStateView::Failed(
            outcome->Failure_0,
        ) && commit_stores(w).runs.records[run] == w.runs.records[run],
        outcome is Success && !(outcome->Success_0 is Store && fits_operation(
            w.operations.store_inputs[operation].operation,
            outcome->Success_0->Store_0,
        )) ==> commit_stores(w).runs.states[run] == RunStateView::Failed(
            CanonicalErrorView::EffectKindMismatch,
        ) && commit_stores(w).runs.records[run] == w.runs.records[run],
{
    law_store_commits_reach_their_run_only(w, operation);
}

/// Whether a run waits for a batch of tool operations that are all settled, each with its own
/// position among the calls of the model.
pub open spec fn batch_settled(w: WorldView, batch: Entity, run: Entity, n: nat) -> bool {
    &&& w.operations.operation_of_batch.dom().finite()
    &&& w.operations.batches.contains_key(batch)
    &&& !w.operations.batches[batch].committed
    &&& w.operations.batches[batch].expected == n
    &&& w.operations.batch_of.contains_key(batch)
    &&& w.operations.batch_of[batch] == run
    &&& 0 < n
    &&& sources_of(w.operations.operation_of_batch, batch).len() == n
    &&& w.runs.states.contains_key(run)
    &&& w.runs.states[run] == (RunStateView::WaitingTools { batch })
    &&& w.runs.records.contains_key(run)
    &&& forall|e: Entity| #[trigger]
        in_batch(w, batch, e) ==> {
            &&& w.operations.tool_inputs.contains_key(e)
            &&& w.operations.tool_inputs[e].index < n
            &&& w.operations.states.contains_key(e)
            &&& w.operations.states[e].phase is Settled
        }
    &&& forall|e: Entity, f: Entity|
        #![trigger in_batch(w, batch, e), in_batch(w, batch, f)]
        in_batch(w, batch, e) && in_batch(w, batch, f) && e != f
            ==> w.operations.tool_inputs[e].index != w.operations.tool_inputs[f].index
}

/// Whether an operation is one of a batch.
pub open spec fn in_batch(w: WorldView, batch: Entity, e: Entity) -> bool {
    w.operations.operation_of_batch.contains_key(e) && w.operations.operation_of_batch[e] == batch
}

/// Whether a tool operation succeeded with the answer to its own call.
pub open spec fn answered(w: WorldView, e: Entity, output: ToolEffectOutputView) -> bool {
    let input = w.operations.tool_inputs[e];
    &&& w.operations.states[e].phase == OperationPhaseView::Settled(
        OperationOutcomeView::Success(EffectOutputView::Tool(output)),
    )
    &&& output.call_id == input.call_id
    &&& output.provider_result_id == input.provider_result_id
    &&& output.provider_call_id == input.provider_call_id
    &&& output.name == input.decision.name
}

/// Each operation of a settled batch stands at its own position in the order of the batch.
proof fn lemma_positions(w: WorldView, batch: Entity, run: Entity, n: nat)
    requires
        batch_settled(w, batch, run, n),
    ensures
        batch_order(w, batch).len() == n,
        forall|i: int|
            0 <= i < n ==> in_batch(w, batch, #[trigger] batch_order(w, batch)[i])
                && w.operations.tool_inputs[batch_order(w, batch)[i]].index == i,
        forall|e: Entity| #[trigger]
            in_batch(w, batch, e) ==> batch_order(
                w,
                batch,
            )[w.operations.tool_inputs[e].index as int] == e,
        batch_commit_due(w, batch),
{
    let ids = sources_of(w.operations.operation_of_batch, batch);
    let rows = Seq::new(ids.len(), |i: int| index_row(w, ids[i]));
    let sorted = sort_rows(rows);
    let order = batch_order(w, batch);
    assert(order == row_values(sorted));
    lemma_sort_rows(rows);
    rows.to_multiset_ensures();
    sorted.to_multiset_ensures();
    crate::column::lemma_sources_ascending(w.operations.operation_of_batch, batch);
    assert forall|i: int, j: int|
        0 <= i < rows.len() && 0 <= j < rows.len() && i != j implies rows[i] != rows[j] by {
        assert(ids[i] != ids[j]);
    }
    rows.lemma_multiset_has_no_duplicates();
    sorted.lemma_multiset_has_no_duplicates_conv();
    assert forall|i: int| 0 <= i < n implies in_batch(w, batch, #[trigger] order[i])
        && sorted[i] == index_row(w, order[i]) by {
        assert(sorted.contains(sorted[i]));
        assert(sorted.to_multiset().count(sorted[i]) > 0);
        assert(rows.contains(sorted[i]));
        let m = choose|m: int| 0 <= m < rows.len() && rows[m] == sorted[i];
        assert(rows[m] == index_row(w, ids[m]));
        assert(ids.contains(ids[m]));
        lemma_sources(w.operations.operation_of_batch, batch, ids[m]);
    }
    assert forall|i: int, j: int| 0 <= i < j < n implies w.operations.tool_inputs[
        #[trigger] order[i]
    ].index < w.operations.tool_inputs[#[trigger] order[j]].index by {
        law_batch_order_is_call_order(w, batch, i, j);
        assert(sorted[i] != sorted[j]);
        assert(sorted[i] == index_row(w, order[i]));
        assert(sorted[j] == index_row(w, order[j]));
        assert(order[i] != order[j]);
        assert(in_batch(w, batch, order[i]) && in_batch(w, batch, order[j]));
    }
    assert forall|i: int| 0 <= i < n implies w.operations.tool_inputs[
        #[trigger] order[i]
    ].index == i by {
        lemma_squeezed(w, batch, order, n, i);
    }
    assert forall|e: Entity| #[trigger] in_batch(w, batch, e) implies order[
        w.operations.tool_inputs[e].index as int
    ] == e by {
        let k = w.operations.tool_inputs[e].index as int;
        assert(in_batch(w, batch, order[k]));
        assert(w.operations.tool_inputs[order[k]].index == k);
    }
    assert forall|i: int| 0 <= i < ids.len() implies tool_settled(w, #[trigger] ids[i]) by {
        assert(ids.contains(ids[i]));
        lemma_sources(w.operations.operation_of_batch, batch, ids[i]);
        assert(in_batch(w, batch, ids[i]));
    }
}

/// Ascending positions below a bound, as many as the bound, are all positions.
proof fn lemma_squeezed(w: WorldView, batch: Entity, order: Seq<Entity>, n: nat, i: int)
    requires
        0 <= i < n,
        order.len() == n,
        forall|k: int|
            0 <= k < n ==> in_batch(w, batch, #[trigger] order[k])
                && w.operations.tool_inputs[order[k]].index < n,
        forall|k: int, j: int|
            0 <= k < j < n ==> w.operations.tool_inputs[#[trigger] order[k]].index
                < w.operations.tool_inputs[#[trigger] order[j]].index,
    ensures
        w.operations.tool_inputs[order[i]].index == i,
{
    lemma_at_least(w, order, n, i);
    lemma_at_most(w, batch, order, n, i);
}

proof fn lemma_at_least(w: WorldView, order: Seq<Entity>, n: nat, i: int)
    requires
        0 <= i < n,
        forall|k: int, j: int|
            0 <= k < j < n ==> w.operations.tool_inputs[#[trigger] order[k]].index
                < w.operations.tool_inputs[#[trigger] order[j]].index,
    ensures
        w.operations.tool_inputs[order[i]].index >= i,
    decreases i,
{
    if i > 0 {
        lemma_at_least(w, order, n, i - 1);
        assert(w.operations.tool_inputs[order[i - 1]].index
            < w.operations.tool_inputs[order[i]].index);
    }
}

proof fn lemma_at_most(w: WorldView, batch: Entity, order: Seq<Entity>, n: nat, i: int)
    requires
        0 <= i < n,
        order.len() == n,
        forall|k: int|
            0 <= k < n ==> in_batch(w, batch, #[trigger] order[k])
                && w.operations.tool_inputs[order[k]].index < n,
        forall|k: int, j: int|
            0 <= k < j < n ==> w.operations.tool_inputs[#[trigger] order[k]].index
                < w.operations.tool_inputs[#[trigger] order[j]].index,
    ensures
        w.operations.tool_inputs[order[i]].index <= i,
    decreases n - i,
{
    if i < n - 1 {
        lemma_at_most(w, batch, order, n, i + 1);
        assert(w.operations.tool_inputs[order[i]].index
            < w.operations.tool_inputs[order[i + 1]].index);
    } else {
        assert(in_batch(w, batch, order[i]));
    }
}

proof fn lemma_no_failure(w: WorldView, order: Seq<Entity>, from: int)
    requires
        0 <= from,
        forall|i: int|
            0 <= i < order.len() ==> outcome_of(w, #[trigger] order[i]) is Success,
    ensures
        first_failure(w, order, from) is None,
    decreases order.len() - from,
{
    if from < order.len() {
        assert(outcome_of(w, order[from]) is Success);
        lemma_no_failure(w, order, from + 1);
    }
}

proof fn lemma_failure_at(w: WorldView, order: Seq<Entity>, from: int, k: int)
    requires
        0 <= from <= k < order.len(),
        outcome_of(w, order[k]) is Failure,
        forall|i: int| 0 <= i < k ==> outcome_of(w, #[trigger] order[i]) is Success,
    ensures
        first_failure(w, order, from) == Some(outcome_of(w, order[k])->Failure_0),
    decreases k - from,
{
    if from < k {
        assert(outcome_of(w, order[from]) is Success);
        lemma_failure_at(w, order, from + 1, k);
    }
}

/// The transcript entry for the result of a tool: what the model is shown, and the whole of it.
pub open spec fn is_entry_of(entry: TranscriptEntryView, output: ToolEffectOutputView) -> bool {
    &&& entry is ToolResult
    &&& entry->ToolResult_call_id == output.call_id
    &&& entry->ToolResult_provider_result_id == output.provider_result_id
    &&& entry->ToolResult_provider_call_id == output.provider_call_id
    &&& entry->ToolResult_name == output.name
    &&& entry->ToolResult_raw == output.raw
    &&& entry->ToolResult_content == output.presentation
}

/// Whether a run has made as many model calls as its own limit allows, or else that of its agent.
pub open spec fn used_up(w: WorldView, run: Entity, limit: u32) -> bool {
    let agent = w.runs.run_of[run];
    &&& w.runs.records[run].next_turn >= limit
    &&& match w.runs.records[run].max_model_calls {
        Some(own) => limit == own,
        None => w.runs.run_of.contains_key(run) && w.domain.agents.contains_key(agent) && limit
            == w.domain.agents[agent].max_model_calls,
    }
}

/// Where each call of a batch was answered and no model call is left, the run fails with its limit.
/// The answer to the call at a position still stands at that position behind the transcript. Where
/// a call is left but the request before is gone, the run fails as stale.
pub proof fn law_results_without_a_next_call_are_kept(
    w: WorldView,
    batch: Entity,
    run: Entity,
    n: nat,
    limit: u32,
)
    requires
        batch_settled(w, batch, run, n),
        forall|e: Entity| #[trigger]
            in_batch(w, batch, e) ==> exists|output: ToolEffectOutputView| #[trigger]
                answered(w, e, output),
        used_up(w, run, limit) || !w.operations.model_inputs.contains_key(
            w.operations.batches[batch].source_model_operation,
        ) && !used_up(w, run, w.runs.records[run].max_model_calls->0) && !used_up(
            w,
            run,
            w.domain.agents[w.runs.run_of[run]].max_model_calls,
        ),
    ensures
        ({
            let t = commit_batch_step(w, batch);
            let old = w.runs.records[run];
            let new = t.runs.records[run];
            &&& t.runs.states[run] == RunStateView::Failed(
                if used_up(w, run, limit) {
                    CanonicalErrorView::ModelCallBudget { limit }
                } else {
                    CanonicalErrorView::StaleEntity("source model operation"@)
                },
            )
            &&& t.operations.batches[batch].committed
            &&& t.operations.model_inputs == w.operations.model_inputs
            &&& new.transcript.len() == old.transcript.len() + n
            &&& new.transcript.take(old.transcript.len() as int) == old.transcript
            &&& forall|e: Entity, output: ToolEffectOutputView|
                #![trigger in_batch(w, batch, e), answered(w, e, output)]
                in_batch(w, batch, e) && answered(w, e, output) ==> is_entry_of(
                    new.transcript[old.transcript.len() + w.operations.tool_inputs[e].index],
                    output,
                )
        }),
{
    lemma_positions(w, batch, run, n);
    let order = batch_order(w, batch);
    assert forall|i: int| 0 <= i < order.len() implies outcome_of(w, #[trigger] order[i])
        is Success && answers_call(w.operations.tool_inputs[order[i]], outcome_of(w, order[i])) by {
        assert(in_batch(w, batch, order[i]));
        let output = choose|output: ToolEffectOutputView| #[trigger] answered(w, order[i], output);
        assert(answered(w, order[i], output));
    }
    lemma_no_failure(w, order, 0);
    assert(all_answered(w, order));
    let old = w.runs.records[run];
    let new = commit_batch_step(w, batch).runs.records[run];
    assert(new.transcript.take(old.transcript.len() as int) =~= old.transcript);
    assert forall|e: Entity, output: ToolEffectOutputView|
        #![trigger in_batch(w, batch, e), answered(w, e, output)]
        in_batch(w, batch, e) && answered(w, e, output) implies is_entry_of(
        new.transcript[old.transcript.len() + w.operations.tool_inputs[e].index],
        output,
    ) by {
        let k = w.operations.tool_inputs[e].index as int;
        assert(order[k] == e);
        assert(outcome_of(w, e) == OperationOutcomeView::Success(EffectOutputView::Tool(output)));
    }
}

/// Where each call of a batch was answered and model calls are left, the results go to the next
/// model call. The answer to the call at a position stands at that position behind the transcript,
/// and among the results of the next request, which is otherwise that of the call before, and need
/// not be judged again.
pub proof fn law_results_go_to_the_next_call(w: WorldView, batch: Entity, run: Entity, n: nat)
    requires
        batch_settled(w, batch, run, n),
        forall|e: Entity| #[trigger]
            in_batch(w, batch, e) ==> exists|output: ToolEffectOutputView| #[trigger]
                answered(w, e, output),
        !used_up(w, run, w.runs.records[run].max_model_calls->0),
        !used_up(w, run, w.domain.agents[w.runs.run_of[run]].max_model_calls),
        w.operations.model_inputs.contains_key(
            w.operations.batches[batch].source_model_operation,
        ),
        w.operations.accepted_policies.contains_key(
            w.operations.batches[batch].source_model_operation,
        ),
    ensures
        ({
            let t = commit_batch_step(w, batch);
            let source = w.operations.batches[batch].source_model_operation;
            let next = t.runs.states[run]->WaitingModel_operation;
            let input = t.operations.model_inputs[next];
            let old = w.runs.records[run];
            let new = t.runs.records[run];
            &&& t.runs.states[run] is WaitingModel
            &&& next == w.fresh()
            &&& t.operations.batches[batch].committed
            &&& new.transcript.len() == old.transcript.len() + n
            &&& new.transcript.take(old.transcript.len() as int) == old.transcript
            &&& new.usage == old.usage
            &&& new.next_turn == old.next_turn
            &&& input.tool_results.len() == n
            &&& input.history == new.transcript
            &&& forall|e: Entity, output: ToolEffectOutputView|
                #![trigger in_batch(w, batch, e), answered(w, e, output)]
                in_batch(w, batch, e) && answered(w, e, output) ==> {
                    let k = w.operations.tool_inputs[e].index as int;
                    &&& input.tool_results[k] == output
                    &&& is_entry_of(new.transcript[old.transcript.len() + k], output)
                }
            &&& input.decision == w.operations.model_inputs[source].decision
            &&& input.instructions == w.operations.model_inputs[source].instructions
            &&& input.prompt == w.operations.model_inputs[source].prompt
            &&& input.tools == w.operations.model_inputs[source].tools
            &&& input.output_schema == w.operations.model_inputs[source].output_schema
            &&& input.terminal_tool == w.operations.model_inputs[source].terminal_tool
            &&& input.documents == w.operations.model_inputs[source].documents
            &&& input.temperature_bits == w.operations.model_inputs[source].temperature_bits
            &&& input.max_tokens == w.operations.model_inputs[source].max_tokens
            &&& input.tool_choice == w.operations.model_inputs[source].tool_choice
            &&& input.additional_params == w.operations.model_inputs[source].additional_params
            &&& t.operations.accepted_policies[next] == w.operations.accepted_policies[source]
            &&& t.operations.policy_progress[next] == PolicyProgress::Accepted
            &&& t.operations.kinds[next] == OperationKind::Model
            &&& t.operations.operation_of[next] == run
            &&& t.operations.states[next].phase is Prepared
        }),
{
    lemma_positions(w, batch, run, n);
    let order = batch_order(w, batch);
    assert forall|i: int| 0 <= i < order.len() implies outcome_of(w, #[trigger] order[i])
        is Success && answers_call(w.operations.tool_inputs[order[i]], outcome_of(w, order[i])) by {
        assert(in_batch(w, batch, order[i]));
        let output = choose|output: ToolEffectOutputView| #[trigger] answered(w, order[i], output);
        assert(answered(w, order[i], output));
    }
    lemma_no_failure(w, order, 0);
    assert(all_answered(w, order));
    let old = w.runs.records[run];
    let t = commit_batch_step(w, batch);
    let new = t.runs.records[run];
    assert(new.transcript.take(old.transcript.len() as int) =~= old.transcript);
    assert forall|e: Entity, output: ToolEffectOutputView|
        #![trigger in_batch(w, batch, e), answered(w, e, output)]
        in_batch(w, batch, e) && answered(w, e, output) implies {
        let k = w.operations.tool_inputs[e].index as int;
        &&& t.operations.model_inputs[w.fresh()].tool_results[k] == output
        &&& is_entry_of(new.transcript[old.transcript.len() + k], output)
    } by {
        let k = w.operations.tool_inputs[e].index as int;
        assert(order[k] == e);
        assert(outcome_of(w, e) == OperationOutcomeView::Success(EffectOutputView::Tool(output)));
    }
}

/// The failed call with the least position among the calls of the model fails the run, with its
/// error. Nothing is recorded, and the batch is over.
pub proof fn law_the_first_failed_call_fails_the_run(
    w: WorldView,
    batch: Entity,
    run: Entity,
    n: nat,
    e: Entity,
)
    requires
        batch_settled(w, batch, run, n),
        in_batch(w, batch, e),
        w.operations.states[e].phase->Settled_0 is Failure,
        forall|f: Entity| #[trigger]
            in_batch(w, batch, f) && w.operations.tool_inputs[f].index
                < w.operations.tool_inputs[e].index ==> w.operations.states[f].phase->Settled_0
                is Success,
    ensures
        commit_batch_step(w, batch).runs.states[run] == RunStateView::Failed(
            w.operations.states[e].phase->Settled_0->Failure_0,
        ),
        commit_batch_step(w, batch).runs.records[run] == w.runs.records[run],
        commit_batch_step(w, batch).operations.batches[batch].committed,
{
    lemma_positions(w, batch, run, n);
    let order = batch_order(w, batch);
    let k = w.operations.tool_inputs[e].index as int;
    assert(order[k] == e);
    assert forall|i: int| 0 <= i < k implies outcome_of(w, #[trigger] order[i]) is Success by {
        assert(in_batch(w, batch, order[i]));
        assert(w.operations.tool_inputs[order[i]].index == i);
    }
    lemma_failure_at(w, order, 0, k);
}

/// A result that does not answer its own call, or is not one of a tool, fails the run as a
/// mismatch where no call failed.
pub proof fn law_wrong_answers_fail_the_run(
    w: WorldView,
    batch: Entity,
    run: Entity,
    n: nat,
    e: Entity,
)
    requires
        batch_settled(w, batch, run, n),
        in_batch(w, batch, e),
        forall|output: ToolEffectOutputView| !#[trigger] answered(w, e, output),
        forall|f: Entity| #[trigger]
            in_batch(w, batch, f) ==> w.operations.states[f].phase->Settled_0 is Success,
    ensures
        commit_batch_step(w, batch).runs.states[run] == RunStateView::Failed(
            CanonicalErrorView::EffectKindMismatch,
        ),
        commit_batch_step(w, batch).runs.records[run] == w.runs.records[run],
        commit_batch_step(w, batch).operations.batches[batch].committed,
{
    lemma_positions(w, batch, run, n);
    let order = batch_order(w, batch);
    let k = w.operations.tool_inputs[e].index as int;
    assert(order[k] == e);
    assert forall|i: int| 0 <= i < order.len() implies outcome_of(w, #[trigger] order[i])
        is Success by {
        assert(in_batch(w, batch, order[i]));
    }
    lemma_no_failure(w, order, 0);
    if all_answered(w, order) {
        assert(answers_call(w.operations.tool_inputs[order[k]], outcome_of(w, order[k])));
        let output = outcome_of(w, e)->Success_0->Tool_0;
        assert(answered(w, e, output));
    }
}

} // verus!
