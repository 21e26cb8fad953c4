//! What whole systems do to one operation, one run or one batch among others.

use vstd::prelude::*;

use crate::apply::{
    apply_delta, apply_message, apply_messages, completion_outcome, deliver_delta, delta_expected,
    with_delta_counted,
};
use crate::column::{entities_of, lemma_entities, sources_of, Entity};
use crate::commit_tools::{
    all_answered, answers_call, batch_commit_due, batch_order, batch_results, commit_batch_step,
    commit_batches, first_failure, index_row, outcome_of, result_entries, spent_budget,
    tool_settled,
};
use crate::effect::{
    CanonicalErrorView, EffectCompletionView, EffectDeltaView, EffectIngressView,
    OperationPhaseView, OperationStateView,
};
use crate::fold::lemma_fold_invariant;
use crate::ingest::{ingest_all, ingest_cancel, ingest_command};
use crate::laws_commits::no_new_operations;
use crate::run::{
    RunRecordView, RunStateView, RuntimeCommandView, StreamItemView, ToolBatchState,
};
use crate::sorting::{lemma_sort_rows, row_values, sort_rows};
use crate::streams::StreamingView;
use crate::world::WorldView;

verus! {

/// The first completion of an operation in a generation among messages.
pub open spec fn first_completion(
    messages: Seq<EffectIngressView>,
    operation: Entity,
    generation: u64,
) -> Option<EffectCompletionView>
    decreases messages.len(),
{
    if messages.len() == 0 {
        None
    } else {
        match first_completion(messages.drop_last(), operation, generation) {
            Some(completion) => Some(completion),
            None => match messages.last() {
                EffectIngressView::Completion(completion) => if completion.operation == operation
                    && completion.generation == generation {
                    Some(completion)
                } else {
                    None
                },
                EffectIngressView::Delta(_) => None,
            },
        }
    }
}

/// The state of an operation after messages: the first completion of its generation settles it
/// where it is in flight, and nothing else changes it.
pub open spec fn state_after_messages(
    w: WorldView,
    messages: Seq<EffectIngressView>,
    operation: Entity,
) -> OperationStateView {
    let state = w.operations.states[operation];
    match first_completion(messages, operation, state.generation) {
        Some(completion) => if state.phase is InFlight {
            OperationStateView {
                generation: state.generation,
                phase: OperationPhaseView::Settled(
                    completion_outcome(w.operations.kinds[operation], completion.result),
                ),
            }
        } else {
            state
        },
        None => state,
    }
}

proof fn lemma_delta_keeps_states(s: StreamingView, delta: EffectDeltaView)
    ensures
        apply_delta(s, delta).world.operations.states == s.world.operations.states,
        apply_delta(s, delta).world.operations.kinds == s.world.operations.kinds,
{
    if delta_expected(s.world, delta) {
        let run = s.world.operations.operation_of[delta.operation];
        let item = StreamItemView::Delta { sequence: delta.sequence, text: delta.text };
        let counted = StreamingView { world: with_delta_counted(s.world, delta.operation), ..s };
        lemma_fold_invariant(
            sources_of(s.world.runs.subscription_of, run),
            counted,
            |s: StreamingView, e: Entity| deliver_delta(s, e, item),
            |t: StreamingView| t.world.operations == counted.world.operations,
        );
    }
}

proof fn lemma_messages_settle(s: StreamingView, messages: Seq<EffectIngressView>, operation: Entity)
    requires
        s.world.operations.states.contains_key(operation),
        s.world.operations.kinds.contains_key(operation),
    ensures
        ({
            let t = messages.fold_left(
                s,
                |s: StreamingView, m: EffectIngressView| apply_message(s, m),
            ).world;
            &&& t.operations.states.contains_key(operation)
            &&& t.operations.kinds == s.world.operations.kinds
            &&& t.operations.states[operation] == state_after_messages(
                s.world,
                messages,
                operation,
            )
        }),
    decreases messages.len(),
{
    reveal_with_fuel(Seq::fold_left, 2);
    if messages.len() > 0 {
        let front = messages.drop_last();
        lemma_messages_settle(s, front, operation);
        let before = front.fold_left(
            s,
            |s: StreamingView, m: EffectIngressView| apply_message(s, m),
        );
        if let EffectIngressView::Delta(delta) = messages.last() {
            lemma_delta_keeps_states(before, delta);
        }
    }
}

/// Among all messages of a pass, an operation changes only by the first completion of its
/// generation, and only while it is in flight: that completion settles it, with a failure where
/// its result is of another kind. Completions of other generations, repeated completions and
/// deltas leave its state as it is.
pub proof fn law_first_completion_settles(s: StreamingView, operation: Entity)
    requires
        s.world.operations.states.contains_key(operation),
        s.world.operations.kinds.contains_key(operation),
    ensures
        apply_messages(s).world.operations.states.contains_key(operation),
        apply_messages(s).world.operations.states[operation] == state_after_messages(
            s.world,
            s.world.resources.messages,
            operation,
        ),
{
    let taken = WorldView {
        resources: crate::world::ResourcesView { messages: Seq::empty(), ..s.world.resources },
        ..s.world
    };
    lemma_messages_settle(
        StreamingView { world: taken, ..s },
        s.world.resources.messages,
        operation,
    );
}

proof fn lemma_first_stays(
    messages: Seq<EffectIngressView>,
    more: Seq<EffectIngressView>,
    operation: Entity,
    generation: u64,
)
    requires
        first_completion(messages, operation, generation) is Some,
    ensures
        first_completion(messages + more, operation, generation) == first_completion(
            messages,
            operation,
            generation,
        ),
    decreases more.len(),
{
    if more.len() > 0 {
        lemma_first_stays(messages, more.drop_last(), operation, generation);
        assert((messages + more).drop_last() =~= messages + more.drop_last());
    } else {
        assert(messages + more =~= messages);
    }
}

/// Once a completion of an operation was read, messages that follow it change nothing for the
/// operation, whether they are read in the same pass or in a later one.
pub proof fn law_later_completions_change_nothing(
    w: WorldView,
    messages: Seq<EffectIngressView>,
    more: Seq<EffectIngressView>,
    operation: Entity,
)
    requires
        first_completion(messages, operation, w.operations.states[operation].generation) is Some,
    ensures
        state_after_messages(w, messages + more, operation) == state_after_messages(
            w,
            messages,
            operation,
        ),
        forall|v: WorldView|
            v.operations.states[operation] == state_after_messages(w, messages, operation)
                ==> #[trigger] state_after_messages(v, more, operation)
                == v.operations.states[operation],
{
    lemma_first_stays(
        messages,
        more,
        operation,
        w.operations.states[operation].generation,
    );
}

/// Whether a command asks to cancel a run.
pub open spec fn asks_to_cancel(commands: Seq<RuntimeCommandView>, run: Entity) -> bool {
    commands.contains(RuntimeCommandView::Cancel { run })
}

/// Whether an entity is a run that can be cancelled or has an outcome.
pub open spec fn is_live_run(w: WorldView, run: Entity) -> bool {
    &&& w.stable_ids.contains_key(run)
    &&& w.runs.states.contains_key(run)
    &&& w.runs.records.contains_key(run)
}

/// The state of a run that is asked to stop: an outcome other than cancellation stays.
pub open spec fn stopped(state: RunStateView) -> RunStateView {
    if state is Completed || state is Failed {
        state
    } else {
        RunStateView::Cancelled
    }
}

proof fn lemma_commands_stop_run(
    w: WorldView,
    start: u64,
    commands: Seq<RuntimeCommandView>,
    run: Entity,
)
    requires
        is_live_run(w, run),
        run.0 < w.next,
    ensures
        ({
            let t = commands.fold_left(
                w,
                |x: WorldView, c: RuntimeCommandView| ingest_command(x, start, c),
            );
            &&& is_live_run(t, run)
            &&& w.next <= t.next
            &&& t.runs.records[run] == w.runs.records[run]
            &&& t.runs.states[run] == (if asks_to_cancel(commands, run) {
                stopped(w.runs.states[run])
            } else {
                w.runs.states[run]
            })
        }),
    decreases commands.len(),
{
    reveal_with_fuel(Seq::fold_left, 2);
    if commands.len() > 0 {
        let front = commands.drop_last();
        let last = commands.last();
        lemma_commands_stop_run(w, start, front, run);
        let before = front.fold_left(
            w,
            |x: WorldView, c: RuntimeCommandView| ingest_command(x, start, c),
        );
        let cancel = RuntimeCommandView::Cancel { run };
        assert(asks_to_cancel(commands, run) <==> asks_to_cancel(front, run) || last == cancel) by {
            if asks_to_cancel(commands, run) && last != cancel {
                let k = choose|k: int| 0 <= k < commands.len() && commands[k] == cancel;
                assert(front[k] == cancel);
            }
            if asks_to_cancel(front, run) {
                let k = choose|k: int| 0 <= k < front.len() && front[k] == cancel;
                assert(commands[k] == cancel);
            }
            assert(commands[commands.len() - 1] == last);
        }
    }
}

/// A run that is asked to stop, among any other commands of a pass, is cancelled unless it has
/// completed or failed. Its record is as it was. A run that is not asked keeps its state.
pub proof fn law_cancel_stops_the_run(
    w: WorldView,
    commands: Seq<RuntimeCommandView>,
    run: Entity,
)
    requires
        is_live_run(w, run),
        run.0 < w.next,
    ensures
        ingest_all(w, commands).runs.records[run] == w.runs.records[run],
        asks_to_cancel(commands, run) ==> ingest_all(w, commands).runs.states[run] == stopped(
            w.runs.states[run],
        ),
        !asks_to_cancel(commands, run) ==> ingest_all(w, commands).runs.states[run]
            == w.runs.states[run],
{
    lemma_commands_stop_run(w, w.next, commands, run);
}

/// Cancelling a run twice leaves every entity as cancelling it once does.
pub proof fn law_cancelling_twice_is_cancelling_once(w: WorldView, run: Entity)
    ensures
        ({
            let once = ingest_cancel(w, run);
            let twice = ingest_cancel(once, run);
            &&& twice.runs == once.runs
            &&& twice.operations == once.operations
            &&& twice.domain == once.domain
            &&& twice.stable_ids == once.stable_ids
            &&& twice.tenants == once.tenants
            &&& twice.controls == once.controls
            &&& twice.next == once.next
        }),
{
    let once = ingest_cancel(w, run);
    assert(once.runs.states.insert(run, RunStateView::Cancelled) =~= once.runs.states
        || ingest_cancel(once, run) == once);
}

/// Whether a batch has operations that were made before, and its run waits for it.
pub open spec fn awaits_batch(w: WorldView, batch: Entity) -> bool {
    let ids = sources_of(w.operations.operation_of_batch, batch);
    let run = w.operations.batch_of[batch];
    &&& w.operations.batches.contains_key(batch)
    &&& w.operations.batch_of.contains_key(batch)
    &&& !w.operations.batches[batch].committed
    &&& forall|i: int| 0 <= i < ids.len() ==> (#[trigger] ids[i]).0 < w.next
    &&& w.runs.records.contains_key(run)
    &&& w.runs.states.contains_key(run)
    &&& w.runs.states[run] == (RunStateView::WaitingTools { batch })
}

/// Whether two worlds agree on a batch, on its run and on every operation that a world had made.
spec fn agree_on_batch(w: WorldView, v: WorldView, batch: Entity) -> bool {
    let run = w.operations.batch_of[batch];
    &&& v.operations.operation_of_batch == w.operations.operation_of_batch
    &&& v.operations.tool_inputs == w.operations.tool_inputs
    &&& v.operations.batch_of == w.operations.batch_of
    &&& v.operations.batches.contains_key(batch)
    &&& v.operations.batches[batch] == w.operations.batches[batch]
    &&& v.domain == w.domain
    &&& v.runs.run_of == w.runs.run_of
    &&& no_new_operations(w, v, run)
    &&& v.runs.records.contains_key(run)
    &&& v.runs.records[run] == w.runs.records[run]
    &&& v.runs.states.contains_key(run)
    &&& v.runs.states[run] == w.runs.states[run]
    &&& forall|e: Entity|
        #![trigger v.operations.states.contains_key(e)]
        #![trigger v.operations.states[e]]
        e.0 < w.next ==> (v.operations.states.contains_key(e)
            <==> w.operations.states.contains_key(e)) && v.operations.states[e]
            == w.operations.states[e]
}

/// Whether a run has failed with a batch, which is over, and has the given record.
spec fn batch_failed(
    w: WorldView,
    v: WorldView,
    batch: Entity,
    error: CanonicalErrorView,
    record: RunRecordView,
) -> bool {
    let run = w.operations.batch_of[batch];
    &&& v.operations.batch_of == w.operations.batch_of
    &&& v.operations.batches.contains_key(batch)
    &&& v.operations.batches[batch] == (ToolBatchState {
        committed: true,
        ..w.operations.batches[batch]
    })
    &&& no_new_operations(w, v, run)
    &&& v.runs.records.contains_key(run)
    &&& v.runs.records[run] == record
    &&& v.runs.states.contains_key(run)
    &&& v.runs.states[run] == RunStateView::Failed(error)
}

/// The operations of a batch are those that stand in its order.
proof fn lemma_order_members(w: WorldView, batch: Entity, k: int)
    requires
        0 <= k < batch_order(w, batch).len(),
    ensures
        sources_of(w.operations.operation_of_batch, batch).contains(batch_order(w, batch)[k]),
{
    let ids = sources_of(w.operations.operation_of_batch, batch);
    let all = Seq::new(ids.len(), |i: int| index_row(w, ids[i]));
    lemma_sort_rows(all);
    let sorted = sort_rows(all);
    assert(batch_order(w, batch) == row_values(sorted));
    sorted.to_multiset_ensures();
    all.to_multiset_ensures();
    assert(sorted.contains(sorted[k]));
    assert(sorted.to_multiset().count(sorted[k]) > 0);
    assert(all.contains(sorted[k]));
    let m = choose|m: int| 0 <= m < all.len() && all[m] == sorted[k];
    assert(ids[m] == batch_order(w, batch)[k]);
}

proof fn lemma_same_failure(w: WorldView, v: WorldView, order: Seq<Entity>, from: int)
    requires
        0 <= from,
        forall|i: int|
            0 <= i < order.len() ==> v.operations.states[#[trigger] order[i]]
                == w.operations.states[order[i]],
    ensures
        first_failure(v, order, from) == first_failure(w, order, from),
    decreases order.len() - from,
{
    if from < order.len() {
        assert(v.operations.states[order[from]] == w.operations.states[order[from]]);
        lemma_same_failure(w, v, order, from + 1);
    }
}

/// Worlds that agree on a batch agree on whether it is due and on what it gives.
proof fn lemma_agreement(w: WorldView, v: WorldView, batch: Entity)
    requires
        awaits_batch(w, batch),
        agree_on_batch(w, v, batch),
    ensures
        batch_order(v, batch) == batch_order(w, batch),
        batch_commit_due(v, batch) == batch_commit_due(w, batch),
        first_failure(v, batch_order(v, batch), 0) == first_failure(w, batch_order(w, batch), 0),
        all_answered(v, batch_order(v, batch)) == all_answered(w, batch_order(w, batch)),
        batch_results(v, batch_order(v, batch)) == batch_results(w, batch_order(w, batch)),
        batch_end(v, batch) == batch_end(w, batch),
{
    let ids = sources_of(w.operations.operation_of_batch, batch);
    assert(Seq::new(ids.len(), |i: int| index_row(v, ids[i])) =~= Seq::new(
        ids.len(),
        |i: int| index_row(w, ids[i]),
    ));
    let order = batch_order(w, batch);
    assert forall|i: int| 0 <= i < order.len() implies v.operations.states[#[trigger] order[i]]
        == w.operations.states[order[i]] by {
        lemma_order_members(w, batch, i);
        let k = choose|k: int| 0 <= k < ids.len() && ids[k] == order[i];
        assert(ids[k].0 < w.next);
    }
    lemma_same_failure(w, v, order, 0);
    assert(batch_results(v, order) =~= batch_results(w, order));
    assert forall|i: int| 0 <= i < ids.len() implies tool_settled(v, #[trigger] ids[i])
        == tool_settled(w, ids[i]) by {
        assert(ids[i].0 < w.next);
        assert(v.operations.states.contains_key(ids[i]) <==> w.operations.states.contains_key(ids[i]));
        assert(v.operations.states[ids[i]] == w.operations.states[ids[i]]);
    }
    if batch_commit_due(w, batch) {
        assert forall|i: int| 0 <= i < ids.len() implies tool_settled(v, #[trigger] ids[i]) by {
            assert(tool_settled(w, ids[i]));
        }
    }
    if batch_commit_due(v, batch) {
        assert forall|i: int| 0 <= i < ids.len() implies tool_settled(w, #[trigger] ids[i]) by {
            assert(tool_settled(v, ids[i]));
        }
    }
    if all_answered(w, order) {
        assert forall|i: int| 0 <= i < order.len() implies answers_call(
            v.operations.tool_inputs[#[trigger] order[i]],
            outcome_of(v, order[i]),
        ) by {
            assert(answers_call(w.operations.tool_inputs[order[i]], outcome_of(w, order[i])));
        }
    }
    if all_answered(v, order) {
        assert forall|i: int| 0 <= i < order.len() implies answers_call(
            w.operations.tool_inputs[#[trigger] order[i]],
            outcome_of(w, order[i]),
        ) by {
            assert(answers_call(v.operations.tool_inputs[order[i]], outcome_of(v, order[i])));
        }
    }
}

/// The commit of another batch leaves a batch and its run alone.
proof fn lemma_other_batch(w: WorldView, v: WorldView, batch: Entity, other: Entity)
    requires
        awaits_batch(w, batch),
        agree_on_batch(w, v, batch),
        other != batch,
        w.next <= v.next,
    ensures
        agree_on_batch(w, commit_batch_step(v, other), batch),
        v.next <= commit_batch_step(v, other).next,
{
    let run = w.operations.batch_of[batch];
    if batch_commit_due(v, other) {
        assert(v.operations.batch_of[other] != run);
    }
}

/// The commit of another batch leaves a failed run alone.
proof fn lemma_failed_batch_stays(
    w: WorldView,
    v: WorldView,
    batch: Entity,
    other: Entity,
    error: CanonicalErrorView,
    record: RunRecordView,
)
    requires
        batch_failed(w, v, batch, error, record),
    ensures
        batch_failed(w, commit_batch_step(v, other), batch, error, record),
        v.next <= commit_batch_step(v, other).next,
{
    let run = w.operations.batch_of[batch];
    if batch_commit_due(v, other) {
        assert(v.operations.batch_of[other] != run);
        assert(other != batch);
    }
}

/// The error with which a batch ends its run, where it commits no results.
pub open spec fn batch_error(w: WorldView, batch: Entity) -> Option<CanonicalErrorView> {
    match first_failure(w, batch_order(w, batch), 0) {
        Some(error) => Some(error),
        None => if all_answered(w, batch_order(w, batch)) {
            None
        } else {
            Some(CanonicalErrorView::EffectKindMismatch)
        },
    }
}

/// The error with which a batch ends its run, and the record that it leaves. A run that has used up
/// its model calls keeps the results.
pub open spec fn batch_end(w: WorldView, batch: Entity) -> Option<
    (CanonicalErrorView, RunRecordView),
> {
    let run = w.operations.batch_of[batch];
    let record = w.runs.records[run];
    match batch_error(w, batch) {
        Some(error) => Some((error, record)),
        None => match spent_budget(w, run) {
            Some(limit) => Some(
                (
                    CanonicalErrorView::ModelCallBudget { limit },
                    RunRecordView {
                        transcript: record.transcript + result_entries(
                            batch_results(w, batch_order(w, batch)),
                        ),
                        ..record
                    },
                ),
            ),
            None => None,
        },
    }
}

proof fn lemma_batches_one_by_one(w: WorldView, batch: Entity, ids: Seq<Entity>)
    requires
        awaits_batch(w, batch),
        !batch_commit_due(w, batch) || batch_end(w, batch) is Some,
    ensures
        ({
            let v = ids.fold_left(w, |w: WorldView, e: Entity| commit_batch_step(w, e));
            &&& w.next <= v.next
            &&& if batch_commit_due(w, batch) && ids.contains(batch) {
                let (error, record) = batch_end(w, batch)->0;
                batch_failed(w, v, batch, error, record)
            } else {
                agree_on_batch(w, v, batch)
            }
        }),
    decreases ids.len(),
{
    reveal_with_fuel(Seq::fold_left, 2);
    if ids.len() > 0 {
        let front = ids.drop_last();
        let last = ids.last();
        lemma_batches_one_by_one(w, batch, front);
        let v = front.fold_left(w, |w: WorldView, e: Entity| commit_batch_step(w, e));
        assert(ids.contains(batch) <==> front.contains(batch) || last == batch) by {
            if ids.contains(batch) && last != batch {
                let k = choose|k: int| 0 <= k < ids.len() && ids[k] == batch;
                assert(front[k] == batch);
            }
            if front.contains(batch) {
                let k = choose|k: int| 0 <= k < front.len() && front[k] == batch;
                assert(ids[k] == batch);
            }
            assert(ids[ids.len() - 1] == last);
        }
        if batch_commit_due(w, batch) && front.contains(batch) {
            let (error, record) = batch_end(w, batch)->0;
            lemma_failed_batch_stays(w, v, batch, last, error, record);
        } else {
            lemma_agreement(w, v, batch);
            if last != batch {
                lemma_other_batch(w, v, batch, last);
            }
        }
    }
}

/// While an operation of a batch is not settled, committing the batches of all runs leaves the
/// batch, its run and the record of the run as they are.
pub proof fn law_unsettled_batches_stay(w: WorldView, batch: Entity, i: int)
    requires
        awaits_batch(w, batch),
        0 <= i < sources_of(w.operations.operation_of_batch, batch).len(),
        !tool_settled(w, sources_of(w.operations.operation_of_batch, batch)[i]),
    ensures
        ({
            let run = w.operations.batch_of[batch];
            let t = commit_batches(w);
            &&& t.operations.batches[batch] == w.operations.batches[batch]
            &&& t.runs.states[run] == w.runs.states[run]
            &&& t.runs.records[run] == w.runs.records[run]
        }),
{
    let ids = sources_of(w.operations.operation_of_batch, batch);
    assert(!tool_settled(w, ids[i]));
    assert(!batch_commit_due(w, batch));
    lemma_batches_one_by_one(w, batch, entities_of(w.operations.batches.dom()));
}

/// A settled batch with a failed call, or with a result that answers another call, ends its run
/// with an error when the batches of all runs are committed: the transcript is as it was, and the
/// batch is over.
pub proof fn law_failed_batches_end_their_run(w: WorldView, batch: Entity)
    requires
        awaits_batch(w, batch),
        batch_commit_due(w, batch),
        batch_error(w, batch) is Some,
        w.operations.batches.dom().finite(),
    ensures
        ({
            let run = w.operations.batch_of[batch];
            let t = commit_batches(w);
            &&& t.runs.states[run] == RunStateView::Failed(batch_error(w, batch)->0)
            &&& t.runs.records[run] == w.runs.records[run]
            &&& t.operations.batches[batch].committed
            &&& no_new_operations(w, t, run)
        }),
{
    let ids = entities_of(w.operations.batches.dom());
    lemma_entities(w.operations.batches.dom());
    assert(ids.to_set().contains(batch));
    lemma_batches_one_by_one(w, batch, ids);
}

/// When the batches of all runs are committed, a run that has used up its limit asks for no further
/// model call: it fails, its record keeps the results, and it has no new operation.
pub proof fn law_spent_runs_end_with_their_results(w: WorldView, batch: Entity, limit: u32)
    requires
        awaits_batch(w, batch),
        batch_commit_due(w, batch),
        batch_error(w, batch) is None,
        spent_budget(w, w.operations.batch_of[batch]) == Some(limit),
        w.operations.batches.dom().finite(),
    ensures
        ({
            let run = w.operations.batch_of[batch];
            let t = commit_batches(w);
            &&& t.runs.states[run] == RunStateView::Failed(
                CanonicalErrorView::ModelCallBudget { limit },
            )
            &&& t.runs.records[run].transcript == w.runs.records[run].transcript + result_entries(
                batch_results(w, batch_order(w, batch)),
            )
            &&& t.operations.batches[batch].committed
            &&& no_new_operations(w, t, run)
        }),
{
    let ids = entities_of(w.operations.batches.dom());
    lemma_entities(w.operations.batches.dom());
    assert(ids.to_set().contains(batch));
    lemma_batches_one_by_one(w, batch, ids);
}

/// A batch that is over stays as it is, whatever other batches are committed, and does nothing to
/// its run.
pub proof fn law_committed_batches_are_final(w: WorldView, batch: Entity)
    requires
        w.operations.batches.contains_key(batch),
        w.operations.batches[batch].committed,
    ensures
        commit_batch_step(w, batch) == w,
        commit_batches(w).operations.batches.contains_key(batch),
        commit_batches(w).operations.batches[batch] == w.operations.batches[batch],
{
    lemma_fold_invariant(
        entities_of(w.operations.batches.dom()),
        w,
        |w: WorldView, e: Entity| commit_batch_step(w, e),
        |v: WorldView|
            v.operations.batches.contains_key(batch) && v.operations.batches[batch]
                == w.operations.batches[batch],
    );
}

} // verus!
