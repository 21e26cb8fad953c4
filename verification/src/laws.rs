//! What holds of effects, policies, tools and turns across the systems of the schedule.

use vstd::prelude::*;

use crate::apply::{
    apply_completion, apply_delta, delta_expected, deliver_delta, expire_step, in_flight,
};
use crate::capability::PolicyProgress;
use crate::column::{sources_of, Entity};
use crate::commit_model::{
    commit_output, first_repeated, first_unknown, terminal_text, with_final_output,
};
use crate::commit_store::store_commit;
use crate::commit_tools::{
    batch_commit_due, batch_order, commit_batch_step, first_failure, index_row, tool_settled,
};
use crate::dispatch::{
    dispatch_request, model_request, store_request, tool_request, DispatchView,
};
use crate::drive::state_outcome;
use crate::effect::{
    CanonicalErrorView, EffectCompletionView, EffectDeltaView, EffectInputView, EffectOutputView,
    EffectRequestView, ModelEffectInputView, ModelEffectOutputView, OperationOutcomeView,
    OperationPhaseView, StoreEffectOutputView, StoreOperationView, ToolDecisionView,
    TranscriptEntryView, Usage,
};
use crate::policy_stage::{
    denial_position, ordered_policies, policy_due, policy_step, prompt_text_of,
};
use crate::prepare_model::{name_taken, numbered_by_name};
use crate::publish::terminal_item;
use crate::queue::{QueueView, SendError};
use crate::run::{
    RunRecordView, RunStateView, StreamItemView, StreamTerminalView,
};
use crate::sorting::{key_le, lemma_sort_rows, row_values, sort_rows};
use crate::streams::StreamingView;
use crate::world::{terminal_state, WorldView};

verus! {

/// A completion for an operation that is not in flight, or for another generation of it, changes
/// nothing: late, repeated and stale completions are ignored.
pub proof fn law_stale_completions_are_ignored(w: WorldView, completion: EffectCompletionView)
    requires
        !in_flight(w, completion.operation, completion.generation),
    ensures
        apply_completion(w, completion) == w,
{
}

/// An outcome is written once: no later completion changes the world any more, whatever it says.
pub proof fn law_outcome_is_written_once(
    w: WorldView,
    completion: EffectCompletionView,
    again: EffectCompletionView,
)
    requires
        in_flight(w, completion.operation, completion.generation),
        again.operation == completion.operation,
    ensures
        apply_completion(w, completion).operations.states[completion.operation].phase is Settled,
        apply_completion(apply_completion(w, completion), again) == apply_completion(w, completion),
{
}

/// A cancelled operation stays cancelled: no completion changes the world any more.
pub proof fn law_cancelled_operations_take_no_completion(
    w: WorldView,
    completion: EffectCompletionView,
)
    requires
        w.operations.states.contains_key(completion.operation),
        w.operations.states[completion.operation].phase is Cancelled,
    ensures
        apply_completion(w, completion) == w,
{
}

/// A completion touches the operation that it names and no other, and no run.
pub proof fn law_completions_touch_one_operation(
    w: WorldView,
    completion: EffectCompletionView,
    other: Entity,
)
    requires
        other != completion.operation,
        w.operations.states.contains_key(other),
    ensures
        apply_completion(w, completion).operations.states.contains_key(other),
        apply_completion(w, completion).operations.states[other] == w.operations.states[other],
        apply_completion(w, completion).runs == w.runs,
        apply_completion(w, completion).domain == w.domain,
{
}

/// A delta out of sequence, of another generation or after the end of its operation changes
/// nothing: there are no duplicates and no gaps.
pub proof fn law_unexpected_deltas_are_ignored(s: StreamingView, delta: EffectDeltaView)
    requires
        ({
            let states = s.world.operations.stream_states;
            ||| !in_flight(s.world, delta.operation, delta.generation)
            ||| !states.contains_key(delta.operation)
            ||| states[delta.operation].next_sequence != delta.sequence
        }),
    ensures
        apply_delta(s, delta) == s,
{
}

/// Delivering a delta to subscriptions leaves operations alone.
proof fn lemma_delivery_keeps_operations(
    s: StreamingView,
    ids: Seq<Entity>,
    item: StreamItemView,
)
    ensures
        ids.fold_left(
            s,
            |s: StreamingView, e: Entity| deliver_delta(s, e, item),
        ).world.operations == s.world.operations,
    decreases ids.len(),
{
    reveal_with_fuel(Seq::fold_left, 2);
    if ids.len() > 0 {
        lemma_delivery_keeps_operations(s, ids.drop_last(), item);
    }
}

/// A delta that was accepted is not accepted again, as long as its number is not the last there
/// is.
pub proof fn law_deltas_are_accepted_once(s: StreamingView, delta: EffectDeltaView)
    requires
        delta_expected(s.world, delta),
        delta.sequence < u64::MAX,
    ensures
        ({
            let next = apply_delta(s, delta);
            &&& next.world.operations.stream_states[delta.operation].next_sequence
                == delta.sequence + 1
            &&& apply_delta(next, delta) == next
        }),
{
    let run = s.world.operations.operation_of[delta.operation];
    let item = StreamItemView::Delta { sequence: delta.sequence, text: delta.text };
    let counted = StreamingView {
        world: crate::apply::with_delta_counted(s.world, delta.operation),
        ..s
    };
    lemma_delivery_keeps_operations(counted, sources_of(s.world.runs.subscription_of, run), item);
}

/// No work of a cancelled run is dispatched.
pub proof fn law_cancelled_runs_dispatch_nothing(w: WorldView, run: Entity, operation: Entity)
    requires
        w.runs.states.contains_key(run),
        w.runs.states[run] is Cancelled,
    ensures
        w.operations.operation_of.contains_key(operation)
            && w.operations.operation_of[operation] == run ==> model_request(w, operation) is None
            && store_request(w, operation) is None,
        w.operations.operation_of_batch.contains_key(operation) && w.operations.batch_of.contains_key(
            w.operations.operation_of_batch[operation],
        ) && w.operations.batch_of[w.operations.operation_of_batch[operation]] == run
            ==> tool_request(w, operation) is None,
{
}

/// Only work whose policies were accepted is dispatched, and it is dispatched with the input that
/// was accepted: later changes of capabilities do not reach it.
pub proof fn law_dispatch_uses_the_accepted_input(w: WorldView, v: WorldView, operation: Entity)
    requires
        v.operations == w.operations,
        v.runs == w.runs,
        v.stable_ids == w.stable_ids,
    ensures
        model_request(v, operation) == model_request(w, operation),
        tool_request(v, operation) == tool_request(w, operation),
        store_request(v, operation) == store_request(w, operation),
        match model_request(w, operation) {
            Some((_, request)) => {
                &&& w.operations.policy_progress[operation] == PolicyProgress::Accepted
                &&& request.input == EffectInputView::Model(w.operations.model_inputs[operation])
            },
            None => true,
        },
{
}

/// A denied request is never dispatched: the denial settles the operation before dispatch.
pub proof fn law_denied_requests_are_not_dispatched(w: WorldView, operation: Entity)
    requires
        policy_due(w, operation),
        ({
            let run = w.operations.operation_of[operation];
            let order = ordered_policies(w, w.runs.run_of[run]);
            denial_position(w, order, prompt_text_of(w, operation), 0) < order.len()
        }),
    ensures
        model_request(policy_step(w, operation), operation) is None,
        policy_step(w, operation).operations.states[operation].phase is Settled,
{
}

/// Where no executor is left, offered work fails at once and nothing is queued.
pub proof fn law_disconnected_work_fails(d: DispatchView, request: EffectRequestView)
    requires
        d.outbox.refusal() == Some(SendError::Disconnected),
        d.world.operations.states.contains_key(request.operation),
        d.world.operations.states[request.operation].generation == request.generation,
        d.world.operations.states[request.operation].phase is Prepared,
    ensures
        ({
            let next = dispatch_request(d, request);
            &&& next.outbox == d.outbox
            &&& next.world.operations.states[request.operation].phase
                == OperationPhaseView::Settled(
                OperationOutcomeView::Failure(CanonicalErrorView::ExecutorDisconnected),
            )
        }),
{
}

/// Work stays as it is while the effect queue is full.
pub proof fn law_full_queue_keeps_work(d: DispatchView, request: EffectRequestView)
    requires
        d.outbox.refusal() == Some(SendError::Full),
    ensures
        dispatch_request(d, request) == d,
{
}

/// An operation past its deadline has timed out, and no completion changes that.
pub proof fn law_timeouts_are_final(
    w: WorldView,
    operation: Entity,
    completion: EffectCompletionView,
)
    requires
        w.operations.states.contains_key(operation),
        w.operations.deadlines.contains_key(operation),
        w.operations.states[operation].phase is InFlight,
        w.resources.tick >= w.operations.deadlines[operation].expires_at,
        completion.operation == operation,
    ensures
        expire_step(w, operation).operations.states[operation].phase
            == OperationPhaseView::Settled(
            OperationOutcomeView::Failure(CanonicalErrorView::Timeout),
        ),
        apply_completion(expire_step(w, operation), completion) == expire_step(w, operation),
{
}

/// A queue is bounded and keeps its order: an item is added at the end if there is room, and
/// otherwise the queue stays as it was.
pub proof fn law_queue_is_bounded<V>(q: QueueView<V>, item: V)
    requires
        q.items.len() <= q.capacity,
    ensures
        q.offered(item).items.len() <= q.capacity,
        q.offered(item).items == q.items || q.offered(item).items == q.items.push(item),
        q.refusal() is None <==> q.offered(item).items == q.items.push(item),
{
    if q.refusal() is Some {
        assert(q.items.len() != q.items.push(item).len());
    }
}

/// A stream and a blocking caller learn the same outcome of a run.
pub proof fn law_streams_and_callers_agree(
    state: RunStateView,
    transcript: Seq<TranscriptEntryView>,
    calls: Seq<Usage>,
)
    ensures
        terminal_item(state) is Some <==> terminal_state(state),
        match (terminal_item(state), state_outcome(Some(state), transcript, calls)) {
            (
                Some(StreamItemView::Finished(StreamTerminalView::Completed(output))),
                Ok(Some(result)),
            ) => result.output == output,
            (
                Some(StreamItemView::Finished(StreamTerminalView::Failed(error))),
                Err(crate::report::LocalAgentErrorView::Canonical(failure)),
            ) => failure == error,
            (
                Some(StreamItemView::Finished(StreamTerminalView::Cancelled)),
                Err(crate::report::LocalAgentErrorView::Cancelled),
            ) => true,
            (None, Ok(None)) => true,
            _ => false,
        },
{
}

/// A response with a repeated call id commits nothing: the run fails and everything else is as it
/// was.
pub proof fn law_repeated_calls_commit_nothing(
    w: WorldView,
    run: Entity,
    operation: Entity,
    input: ModelEffectInputView,
    output: ModelEffectOutputView,
    reason: Seq<char>,
)
    requires
        first_repeated(output.tool_calls, 0) is Some,
    ensures
        ({
            let next = commit_output(w, run, operation, input, output, reason);
            &&& next.runs.states == w.runs.states.insert(
                run,
                RunStateView::Failed(
                    CanonicalErrorView::DuplicateToolCall(first_repeated(output.tool_calls, 0)->0),
                ),
            )
            &&& next.runs.records == w.runs.records
            &&& next.runs.turns == w.runs.turns
            &&& next.operations == w.operations
            &&& next.domain == w.domain
        }),
{
}

/// A response with a call of a tool that was not on offer dispatches no call at all.
pub proof fn law_unknown_tools_dispatch_nothing(
    w: WorldView,
    run: Entity,
    operation: Entity,
    input: ModelEffectInputView,
    output: ModelEffectOutputView,
    reason: Seq<char>,
)
    requires
        first_repeated(output.tool_calls, 0) is None,
        terminal_text(input, output) is None,
        first_unknown(input.tools, output.tool_calls, 0) is Some,
    ensures
        ({
            let next = commit_output(w, run, operation, input, output, reason);
            &&& next.operations == w.operations
            &&& next.runs.states[run] == RunStateView::Failed(
                CanonicalErrorView::UnknownTool(
                    first_unknown(input.tools, output.tool_calls, 0)->0,
                ),
            )
        }),
{
}

/// A tool batch is atomic: while an operation of it is not settled, the batch changes nothing.
pub proof fn law_unsettled_batches_wait(w: WorldView, batch: Entity, i: int)
    requires
        ({
            let ids = sources_of(w.operations.operation_of_batch, batch);
            0 <= i < ids.len() && !tool_settled(w, ids[i])
        }),
    ensures
        commit_batch_step(w, batch) == w,
{
    let ids = sources_of(w.operations.operation_of_batch, batch);
    assert(!tool_settled(w, ids[i]));
}

/// A tool batch with a failed call commits no result: the run fails, with the error of the first
/// failed call in the order of the model, and its transcript is as it was.
pub proof fn law_failed_batches_commit_nothing(w: WorldView, batch: Entity)
    requires
        batch_commit_due(w, batch),
        first_failure(w, batch_order(w, batch), 0) is Some,
    ensures
        ({
            let run = w.operations.batch_of[batch];
            let next = commit_batch_step(w, batch);
            &&& next.runs.states[run] == RunStateView::Failed(
                first_failure(w, batch_order(w, batch), 0)->0,
            )
            &&& next.runs.records == w.runs.records
            &&& next.operations.model_inputs == w.operations.model_inputs
        }),
{
}

/// The operations of a batch are committed in the order of the model's calls.
pub proof fn law_batch_order_is_call_order(w: WorldView, batch: Entity, i: int, j: int)
    requires
        0 <= i < j < batch_order(w, batch).len(),
    ensures
        w.operations.tool_inputs[batch_order(w, batch)[i]].index
            <= w.operations.tool_inputs[batch_order(w, batch)[j]].index,
{
    let ids = sources_of(w.operations.operation_of_batch, batch);
    let rows = Seq::new(ids.len(), |k: int| index_row(w, ids[k]));
    lemma_sort_rows(rows);
    let sorted = sort_rows(rows);
    let order = batch_order(w, batch);
    assert(order == row_values(sorted));
    rows.to_multiset_ensures();
    sorted.to_multiset_ensures();
    assert forall|k: int| 0 <= k < sorted.len() implies (#[trigger] sorted[k]) == index_row(
        w,
        sorted[k].1,
    ) by {
        assert(sorted.contains(sorted[k]));
        assert(sorted.to_multiset().count(sorted[k]) > 0);
        assert(rows.contains(sorted[k]));
        let m = choose|m: int| 0 <= m < rows.len() && rows[m] == sorted[k];
        assert(rows[m] == index_row(w, ids[m]));
    }
    assert(key_le(sorted[i].0, sorted[j].0));
    assert(sorted[i] == index_row(w, order[i]));
    assert(sorted[j] == index_row(w, order[j]));
    reveal_with_fuel(key_le, 2);
}

/// A run with a conversation and a store for it is not complete until the conversation is
/// persisted.
pub proof fn law_persistence_comes_before_success(
    w: WorldView,
    run: Entity,
    record: RunRecordView,
    text: Seq<char>,
)
    requires
        record.conversation is Some,
        record.memory_store is Some,
    ensures
        ({
            let next = with_final_output(w, run, record, text);
            &&& next.runs.states[run] is WaitingStore
            &&& next.runs.records[run].pending_output is Some
            &&& next.runs.records[run].pending_output->0.text == text
        }),
{
}

/// Where the conversation could not be persisted, the run has failed; it completes with the
/// output that waited for it only where the store says that it is persisted.
pub proof fn law_failed_persistence_fails_the_run(
    record: RunRecordView,
    operation: StoreOperationView,
    outcome: OperationOutcomeView,
)
    requires
        operation is PersistConversation,
    ensures
        match store_commit(record, operation, outcome).1 {
            RunStateView::Completed(output) => {
                &&& outcome == OperationOutcomeView::Success(
                    EffectOutputView::Store(StoreEffectOutputView::Persisted),
                )
                &&& record.pending_output == Some(output)
            },
            state => state is Failed,
        },
{
}

/// The tools that a model is offered have distinct names, numbered by their position.
pub proof fn law_offered_names_are_distinct(tools: Seq<ToolDecisionView>)
    ensures
        ({
            let offered = numbered_by_name(tools);
            &&& forall|i: int, j: int|
                0 <= i < j < offered.len() ==> (#[trigger] offered[i]).name != (
                #[trigger] offered[j]).name
            &&& forall|i: int|
                0 <= i < offered.len() ==> (#[trigger] offered[i]).order
                    == crate::numeric::clamped(i as nat)
            &&& forall|k: int|
                0 <= k < tools.len() ==> name_taken(offered, (#[trigger] tools[k]).name)
        }),
    decreases tools.len(),
{
    if tools.len() > 0 {
        law_offered_names_are_distinct(tools.drop_last());
        let rest = numbered_by_name(tools.drop_last());
        let offered = numbered_by_name(tools);
        if name_taken(rest, tools.last().name) {
            assert(offered == rest);
        } else {
            assert forall|i: int| 0 <= i < rest.len() implies (#[trigger] rest[i]).name
                != tools.last().name by {}
            assert(offered.last().name == tools.last().name);
        }
        assert forall|k: int| 0 <= k < tools.len() implies name_taken(
            offered,
            (#[trigger] tools[k]).name,
        ) by {
            if k < tools.len() - 1 {
                assert(tools.drop_last()[k] == tools[k]);
                assert(name_taken(rest, tools[k].name));
                let i = choose|i: int| 0 <= i < rest.len() && (#[trigger] rest[i]).name
                    == tools[k].name;
                assert(offered[i] == rest[i]);
            } else if name_taken(rest, tools.last().name) {
            } else {
                assert(offered[offered.len() - 1].name == tools[k].name);
            }
        }
    }
}

} // verus!
