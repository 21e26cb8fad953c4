//! What committing the operations of all runs does to one run among others.

use vstd::prelude::*;

use crate::column::{entities_of, lemma_entities, Entity};
use crate::commit_model::{
    commit_model_step, commit_models, committed_record, first_repeated, first_unknown,
    has_refused_schema, law_only_refused_schemas_leave_a_commit_open, model_commit_due,
    output_entries, terminal_text, with_tool_operations, Reasons,
};
use crate::commit_store::{commit_store_step, commit_stores, store_commit, store_commit_due};
use crate::effect::{
    CanonicalErrorView, EffectOutputView, ModelEffectOutputView, OperationOutcomeView,
    RunOutputView, StoreEffectOutputView, ToolEffectInputView,
};
use crate::fold::lemma_fold_invariant;
use crate::json::{output_error, response_json, structured_output};
use crate::run::RunStateView;
use crate::schedule::{after_stage, RigSet, ScheduleView};
use crate::world::WorldView;

verus! {

/// Whether a run has no operation that it did not have.
pub open spec fn no_new_operations(w: WorldView, v: WorldView, run: Entity) -> bool {
    forall|e: Entity|
        #![trigger v.operations.operation_of.contains_key(e)]
        #![trigger v.operations.operation_of[e]]
        v.operations.operation_of.contains_key(e) && v.operations.operation_of[e] == run
            ==> w.operations.operation_of.contains_key(e) && w.operations.operation_of[e] == run
}

/// Whether a run has no committed turn that it did not have.
pub open spec fn no_new_turns(w: WorldView, v: WorldView, run: Entity) -> bool {
    forall|e: Entity|
        #![trigger v.runs.turn_of.contains_key(e)]
        #![trigger v.runs.turn_of[e]]
        v.runs.turn_of.contains_key(e) && v.runs.turn_of[e] == run
            ==> w.runs.turn_of.contains_key(e) && w.runs.turn_of[e] == run
}

/// Whether a run is as it was, with no new operation or turn.
spec fn run_kept(w: WorldView, v: WorldView, run: Entity) -> bool {
    &&& v.runs.states.contains_key(run) == w.runs.states.contains_key(run)
    &&& v.runs.states[run] == w.runs.states[run]
    &&& v.runs.records.contains_key(run) == w.runs.records.contains_key(run)
    &&& v.runs.records[run] == w.runs.records[run]
    &&& no_new_operations(w, v, run)
    &&& no_new_turns(w, v, run)
}

/// Whether entities that were made before belong to the same run, in the same state.
spec fn made_kept(w: WorldView, v: WorldView) -> bool {
    &&& w.next <= v.next
    &&& v.operations.model_inputs == w.operations.model_inputs
    &&& forall|e: Entity|
        #![trigger v.operations.states.contains_key(e)]
        #![trigger v.operations.states[e]]
        e.0 < w.next ==> v.operations.states.contains_key(e)
            == w.operations.states.contains_key(e) && v.operations.states[e]
            == w.operations.states[e]
    &&& forall|e: Entity|
        #![trigger v.operations.operation_of.contains_key(e)]
        #![trigger v.operations.operation_of[e]]
        e.0 < w.next ==> v.operations.operation_of.contains_key(e)
            == w.operations.operation_of.contains_key(e) && v.operations.operation_of[e]
            == w.operations.operation_of[e]
}

proof fn lemma_tool_operations_keep(
    w: WorldView,
    other: Entity,
    batch: Entity,
    inputs: Seq<ToolEffectInputView>,
    run: Entity,
)
    requires
        other != run,
    ensures
        run_kept(w, with_tool_operations(w, other, batch, inputs), run),
        made_kept(w, with_tool_operations(w, other, batch, inputs)),
        with_tool_operations(w, other, batch, inputs).runs == w.runs,
    decreases inputs.len(),
{
    if inputs.len() > 0 {
        lemma_tool_operations_keep(w, other, batch, inputs.drop_last(), run);
    }
}

/// The commit of an operation for which a run does not wait leaves the run alone.
proof fn lemma_other_model(w: WorldView, other: Entity, reason: Seq<char>, run: Entity)
    requires
        w.runs.states[run] != (RunStateView::WaitingModel { operation: other }),
    ensures
        run_kept(w, commit_model_step(w, other, reason), run),
        made_kept(w, commit_model_step(w, other, reason)),
{
    if model_commit_due(w, other) {
        let owner = w.operations.operation_of[other];
        assert(owner != run);
        assert forall|v: WorldView, batch: Entity, inputs: Seq<ToolEffectInputView>|
            #![trigger with_tool_operations(v, owner, batch, inputs)]
            run_kept(v, with_tool_operations(v, owner, batch, inputs), run) && made_kept(
                v,
                with_tool_operations(v, owner, batch, inputs),
            ) && with_tool_operations(v, owner, batch, inputs).runs == v.runs by {
            lemma_tool_operations_keep(v, owner, batch, inputs, run);
        }
    }
}

/// Whether two states of a run differ at most in the operation or the batch that it waits for.
pub open spec fn alike(a: RunStateView, b: RunStateView) -> bool {
    match (a, b) {
        (RunStateView::WaitingStore { .. }, RunStateView::WaitingStore { .. }) => true,
        (RunStateView::WaitingTools { .. }, RunStateView::WaitingTools { .. }) => true,
        _ => a == b,
    }
}

/// Whether a run is as the commit of its own operation leaves it.
spec fn run_settled(w: WorldView, one: WorldView, v: WorldView, run: Entity) -> bool {
    &&& v.runs.states.contains_key(run)
    &&& alike(v.runs.states[run], one.runs.states[run])
    &&& !(v.runs.states[run] is WaitingModel)
    &&& v.runs.records.contains_key(run)
    &&& v.runs.records[run] == one.runs.records[run]
    &&& one.runs.states[run] is Failed || one.runs.states[run] is Completed ==> no_new_operations(
        w,
        v,
        run,
    )
    &&& one.runs.records[run] == w.runs.records[run] ==> no_new_turns(w, v, run)
}

/// The commit of an operation does the same to its run in worlds that agree on the two.
proof fn lemma_own_model(w: WorldView, v: WorldView, operation: Entity, reason: Seq<char>)
    requires
        model_commit_due(w, operation),
        operation.0 < w.next,
        run_kept(w, v, w.operations.operation_of[operation]),
        made_kept(w, v),
    ensures
        run_settled(
            w,
            commit_model_step(w, operation, reason),
            commit_model_step(v, operation, reason),
            w.operations.operation_of[operation],
        ),
        v.next <= commit_model_step(v, operation, reason).next,
{
    let run = w.operations.operation_of[operation];
    assert(model_commit_due(v, operation));
    assert(v.operations.operation_of[operation] == run);
    assert forall|u: WorldView, batch: Entity, inputs: Seq<ToolEffectInputView>|
        #![trigger with_tool_operations(u, run, batch, inputs)]
        with_tool_operations(u, run, batch, inputs).runs == u.runs && u.next
            <= with_tool_operations(u, run, batch, inputs).next by {
        lemma_tool_operations_keep_runs(u, run, batch, inputs);
    }
    assert forall|output: ModelEffectOutputView| #[trigger]
        committed_record(w.runs.records[run], output).transcript.len()
            > w.runs.records[run].transcript.len() by {
        assert(output_entries(output).len() > 0);
    }
}

proof fn lemma_tool_operations_keep_runs(
    w: WorldView,
    run: Entity,
    batch: Entity,
    inputs: Seq<ToolEffectInputView>,
)
    ensures
        with_tool_operations(w, run, batch, inputs).runs == w.runs,
        with_tool_operations(w, run, batch, inputs).operations.model_inputs
            == w.operations.model_inputs,
        w.next <= with_tool_operations(w, run, batch, inputs).next,
    decreases inputs.len(),
{
    if inputs.len() > 0 {
        lemma_tool_operations_keep_runs(w, run, batch, inputs.drop_last());
    }
}

proof fn lemma_models_one_by_one(
    w: WorldView,
    operation: Entity,
    ids: Seq<Entity>,
    reasons: Reasons,
)
    requires
        model_commit_due(w, operation),
        operation.0 < w.next,
    ensures
        ({
            let run = w.operations.operation_of[operation];
            let one = commit_model_step(w, operation, reasons[operation]);
            let v = ids.fold_left(
                w,
                |w: WorldView, e: Entity| commit_model_step(w, e, reasons[e]),
            );
            if ids.contains(operation) {
                run_settled(w, one, v, run)
            } else {
                run_kept(w, v, run) && made_kept(w, v)
            }
        }),
    decreases ids.len(),
{
    reveal_with_fuel(Seq::fold_left, 2);
    if ids.len() > 0 {
        let front = ids.drop_last();
        let last = ids.last();
        let run = w.operations.operation_of[operation];
        lemma_models_one_by_one(w, operation, front, reasons);
        let v = front.fold_left(
            w,
            |w: WorldView, e: Entity| commit_model_step(w, e, reasons[e]),
        );
        assert(ids.contains(operation) <==> front.contains(operation) || last == operation) by {
            if ids.contains(operation) && last != operation {
                let k = choose|k: int| 0 <= k < ids.len() && ids[k] == operation;
                assert(front[k] == operation);
            }
            if front.contains(operation) {
                let k = choose|k: int| 0 <= k < front.len() && front[k] == operation;
                assert(ids[k] == operation);
            }
            assert(ids[ids.len() - 1] == last);
        }
        if front.contains(operation) || last != operation {
            lemma_other_model(v, last, reasons[last], run);
        } else {
            lemma_own_model(w, v, operation, reasons[operation]);
        }
    }
}

/// Committing the model operations of all runs does to a run what committing its own operation
/// does, whatever the other runs make of theirs: its record is the same, and so is its state, but
/// for the numbers of the entities that it waits for.
pub proof fn law_model_commits_reach_their_run_only(
    w: WorldView,
    operation: Entity,
    reasons: Reasons,
)
    requires
        model_commit_due(w, operation),
        operation.0 < w.next,
        w.operations.model_inputs.dom().finite(),
    ensures
        ({
            let run = w.operations.operation_of[operation];
            let one = commit_model_step(w, operation, reasons[operation]);
            let all = commit_models(w, reasons);
            &&& all.runs.records[run] == one.runs.records[run]
            &&& alike(all.runs.states[run], one.runs.states[run])
        }),
{
    lemma_entities(w.operations.model_inputs.dom());
    let ids = entities_of(w.operations.model_inputs.dom());
    assert(ids.to_set().contains(operation));
    lemma_models_one_by_one(w, operation, ids, reasons);
}

/// Whether an operation is due with a model output.
pub open spec fn commits_output(
    w: WorldView,
    operation: Entity,
    output: ModelEffectOutputView,
) -> bool {
    &&& model_commit_due(w, operation)
    &&& operation.0 < w.next
    &&& w.operations.states[operation].phase->Settled_0 == OperationOutcomeView::Success(
        EffectOutputView::Model(output),
    )
}

/// When the model operations of all runs are committed, a response with a repeated call id commits
/// nothing to its run: the run fails, and has the record, the turns and the operations that it had.
pub proof fn law_repeated_calls_fail_their_run(
    w: WorldView,
    operation: Entity,
    output: ModelEffectOutputView,
    reasons: Reasons,
)
    requires
        commits_output(w, operation, output),
        w.operations.model_inputs.dom().finite(),
        first_repeated(output.tool_calls, 0) is Some,
    ensures
        ({
            let run = w.operations.operation_of[operation];
            let all = commit_models(w, reasons);
            &&& all.runs.states[run] == RunStateView::Failed(
                CanonicalErrorView::DuplicateToolCall(first_repeated(output.tool_calls, 0)->0),
            )
            &&& all.runs.records[run] == w.runs.records[run]
            &&& no_new_turns(w, all, run)
            &&& no_new_operations(w, all, run)
        }),
{
    lemma_entities(w.operations.model_inputs.dom());
    let ids = entities_of(w.operations.model_inputs.dom());
    assert(ids.to_set().contains(operation));
    lemma_models_one_by_one(w, operation, ids, reasons);
}

/// When the model operations of all runs are committed, a response with a call of a tool that was
/// not on offer makes no operation at all: the run fails with the output in its record.
pub proof fn law_unknown_tools_fail_their_run(
    w: WorldView,
    operation: Entity,
    output: ModelEffectOutputView,
    reasons: Reasons,
)
    requires
        commits_output(w, operation, output),
        w.operations.model_inputs.dom().finite(),
        first_repeated(output.tool_calls, 0) is None,
        terminal_text(w.operations.model_inputs[operation], output) is None,
        first_unknown(w.operations.model_inputs[operation].tools, output.tool_calls, 0) is Some,
    ensures
        ({
            let run = w.operations.operation_of[operation];
            let all = commit_models(w, reasons);
            &&& all.runs.states[run] == RunStateView::Failed(
                CanonicalErrorView::UnknownTool(
                    first_unknown(
                        w.operations.model_inputs[operation].tools,
                        output.tool_calls,
                        0,
                    )->0,
                ),
            )
            &&& all.runs.records[run] == committed_record(w.runs.records[run], output)
            &&& no_new_operations(w, all, run)
        }),
{
    lemma_entities(w.operations.model_inputs.dom());
    let ids = entities_of(w.operations.model_inputs.dom());
    assert(ids.to_set().contains(operation));
    lemma_models_one_by_one(w, operation, ids, reasons);
}

/// When the model operations of all runs are committed, a run with a conversation and a store for
/// it does not complete: with a final output it waits for the store, and the output waits in its
/// record.
pub proof fn law_final_outputs_wait_for_the_store(
    w: WorldView,
    operation: Entity,
    output: ModelEffectOutputView,
    reasons: Reasons,
)
    requires
        commits_output(w, operation, output),
        w.operations.model_inputs.dom().finite(),
        w.runs.records[w.operations.operation_of[operation]].conversation is Some,
        w.runs.records[w.operations.operation_of[operation]].memory_store is Some,
    ensures
        ({
            let run = w.operations.operation_of[operation];
            let input = w.operations.model_inputs[operation];
            let record = committed_record(w.runs.records[run], output);
            let all = commit_models(w, reasons);
            &&& !(all.runs.states[run] is Completed)
            &&& first_repeated(output.tool_calls, 0) is None ==> match terminal_text(
                input,
                output,
            ) {
                Some((text, validate)) => if validate && input.output_schema is Some
                    && structured_output(
                    input.output_schema->0,
                    text,
                    reasons[operation],
                ) is Err {
                    all.runs.states[run] is Failed
                } else {
                    &&& all.runs.states[run] is WaitingStore
                    &&& all.runs.records[run].pending_output == Some(
                        RunOutputView { text, usage: record.usage },
                    )
                },
                None => true,
            }
        }),
{
    lemma_entities(w.operations.model_inputs.dom());
    let ids = entities_of(w.operations.model_inputs.dom());
    assert(ids.to_set().contains(operation));
    lemma_models_one_by_one(w, operation, ids, reasons);
    let run = w.operations.operation_of[operation];
    assert forall|u: WorldView, batch: Entity, inputs: Seq<ToolEffectInputView>|
        #![trigger with_tool_operations(u, run, batch, inputs)]
        with_tool_operations(u, run, batch, inputs).runs == u.runs by {
        lemma_tool_operations_keep_runs(u, run, batch, inputs);
    }
}

/// When the model operations of all runs are committed, a run with a refused schema fails for the
/// reason of its operation, after a fixed prefix, once its final output holds JSON. The output is
/// in its record, and it has no new operation.
pub proof fn law_refused_schemas_fail_their_run(
    w: WorldView,
    operation: Entity,
    output: ModelEffectOutputView,
    text: Seq<char>,
    reasons: Reasons,
)
    requires
        commits_output(w, operation, output),
        w.operations.model_inputs.dom().finite(),
        first_repeated(output.tool_calls, 0) is None,
        terminal_text(w.operations.model_inputs[operation], output) == Some((text, true)),
        has_refused_schema(w, operation),
        response_json(text) is Ok,
    ensures
        ({
            let run = w.operations.operation_of[operation];
            let all = commit_models(w, reasons);
            &&& all.runs.states[run] == RunStateView::Failed(
                output_error("invalid output schema: "@, reasons[operation]),
            )
            &&& all.runs.records[run] == committed_record(w.runs.records[run], output)
            &&& no_new_operations(w, all, run)
        }),
{
    lemma_entities(w.operations.model_inputs.dom());
    let ids = entities_of(w.operations.model_inputs.dom());
    assert(ids.to_set().contains(operation));
    lemma_models_one_by_one(w, operation, ids, reasons);
}

proof fn lemma_model_commits_keep_inputs(w: WorldView, operation: Entity, reason: Seq<char>)
    ensures
        commit_model_step(w, operation, reason).operations.model_inputs
            == w.operations.model_inputs,
{
    assert forall|u: WorldView, run: Entity, batch: Entity, inputs: Seq<ToolEffectInputView>|
        #![trigger with_tool_operations(u, run, batch, inputs)]
        with_tool_operations(u, run, batch, inputs).operations.model_inputs
            == u.operations.model_inputs by {
        lemma_tool_operations_keep_runs(u, run, batch, inputs);
    }
}

proof fn lemma_reasons_have_no_part(
    w: WorldView,
    ids: Seq<Entity>,
    first: Reasons,
    second: Reasons,
)
    requires
        forall|e: Entity| ids.contains(e) ==> !#[trigger] has_refused_schema(w, e),
    ensures
        ({
            let v = ids.fold_left(w, |w: WorldView, e: Entity| commit_model_step(w, e, first[e]));
            &&& v == ids.fold_left(w, |w: WorldView, e: Entity| commit_model_step(w, e, second[e]))
            &&& v.operations.model_inputs == w.operations.model_inputs
        }),
    decreases ids.len(),
{
    reveal_with_fuel(Seq::fold_left, 2);
    if ids.len() > 0 {
        let front = ids.drop_last();
        let last = ids.last();
        assert forall|e: Entity| front.contains(e) implies !#[trigger] has_refused_schema(w, e) by {
            let k = choose|k: int| 0 <= k < front.len() && front[k] == e;
            assert(ids[k] == e);
        }
        lemma_reasons_have_no_part(w, front, first, second);
        let v = front.fold_left(w, |w: WorldView, e: Entity| commit_model_step(w, e, first[e]));
        assert(ids[ids.len() - 1] == last);
        assert(!has_refused_schema(w, last));
        assert(!has_refused_schema(v, last));
        law_only_refused_schemas_leave_a_commit_open(v, last, first[last], second[last]);
        lemma_model_commits_keep_inputs(v, last, first[last]);
    }
}

/// Where no schema of a model operation is refused, the commit of all model operations is fixed:
/// reasons have no part in it.
pub proof fn law_commits_without_refused_schemas_are_fixed(
    w: WorldView,
    first: Reasons,
    second: Reasons,
)
    requires
        w.operations.model_inputs.dom().finite(),
        forall|e: Entity|
            w.operations.model_inputs.contains_key(e) ==> !#[trigger] has_refused_schema(w, e),
    ensures
        commit_models(w, first) == commit_models(w, second),
{
    lemma_entities(w.operations.model_inputs.dom());
    let ids = entities_of(w.operations.model_inputs.dom());
    assert forall|e: Entity| ids.contains(e) implies !#[trigger] has_refused_schema(w, e) by {
        assert(ids.to_set().contains(e));
    }
    lemma_reasons_have_no_part(w, ids, first, second);
}

/// Where no schema of a model operation is refused, every stage of the schedule is fixed.
pub proof fn law_stages_without_refused_schemas_are_fixed(
    stage: RigSet,
    s: ScheduleView,
    first: Reasons,
    second: Reasons,
)
    requires
        s.world.operations.model_inputs.dom().finite(),
        forall|e: Entity|
            s.world.operations.model_inputs.contains_key(e) ==> !#[trigger] has_refused_schema(
                s.world,
                e,
            ),
    ensures
        after_stage(stage, s, first) == after_stage(stage, s, second),
{
    reveal(after_stage);
    let w = s.world;
    lemma_fold_invariant(
        entities_of(w.operations.store_inputs.dom()),
        w,
        |w: WorldView, e: Entity| commit_store_step(w, e),
        |v: WorldView| v.operations == w.operations,
    );
    let v = commit_stores(w);
    assert forall|e: Entity|
        v.operations.model_inputs.contains_key(e) implies !#[trigger] has_refused_schema(v, e) by {
        assert(!has_refused_schema(w, e));
    }
    law_commits_without_refused_schemas_are_fixed(v, first, second);
}

proof fn lemma_stores_one_by_one(w: WorldView, operation: Entity, ids: Seq<Entity>)
    requires
        store_commit_due(w, operation),
    ensures
        ({
            let run = w.operations.operation_of[operation];
            let one = commit_store_step(w, operation);
            let v = ids.fold_left(w, |w: WorldView, e: Entity| commit_store_step(w, e));
            &&& v.operations == w.operations
            &&& v.runs.states.contains_key(run)
            &&& v.runs.records.contains_key(run)
            &&& v.runs.states[run] == (if ids.contains(operation) {
                one.runs.states[run]
            } else {
                w.runs.states[run]
            })
            &&& v.runs.records[run] == (if ids.contains(operation) {
                one.runs.records[run]
            } else {
                w.runs.records[run]
            })
        }),
    decreases ids.len(),
{
    reveal_with_fuel(Seq::fold_left, 2);
    if ids.len() > 0 {
        let front = ids.drop_last();
        let last = ids.last();
        lemma_stores_one_by_one(w, operation, front);
        assert(ids.contains(operation) <==> front.contains(operation) || last == operation) by {
            if ids.contains(operation) && last != operation {
                let k = choose|k: int| 0 <= k < ids.len() && ids[k] == operation;
                assert(front[k] == operation);
            }
            if front.contains(operation) {
                let k = choose|k: int| 0 <= k < front.len() && front[k] == operation;
                assert(ids[k] == operation);
            }
            assert(ids[ids.len() - 1] == last);
        }
    }
}

/// Committing the store operations of all runs gives each run that waits for one the record and
/// the state that its own operation makes of it.
pub proof fn law_store_commits_reach_their_run_only(w: WorldView, operation: Entity)
    requires
        store_commit_due(w, operation),
        w.operations.store_inputs.dom().finite(),
    ensures
        ({
            let run = w.operations.operation_of[operation];
            let all = commit_stores(w);
            (all.runs.records[run], all.runs.states[run]) == store_commit(
                w.runs.records[run],
                w.operations.store_inputs[operation].operation,
                w.operations.states[operation].phase->Settled_0,
            )
        }),
{
    lemma_entities(w.operations.store_inputs.dom());
    let ids = entities_of(w.operations.store_inputs.dom());
    assert(ids.to_set().contains(operation));
    lemma_stores_one_by_one(w, operation, ids);
}

/// When the store operations of all runs are committed, a run that waits until its conversation is
/// persisted completes only where the store says that it is, with the output that waited for it;
/// otherwise it fails.
pub proof fn law_success_follows_persistence(w: WorldView, operation: Entity)
    requires
        store_commit_due(w, operation),
        w.operations.store_inputs.dom().finite(),
        w.operations.store_inputs[operation].operation is PersistConversation,
    ensures
        ({
            let run = w.operations.operation_of[operation];
            match commit_stores(w).runs.states[run] {
                RunStateView::Completed(output) => {
                    &&& w.operations.states[operation].phase->Settled_0
                        == OperationOutcomeView::Success(
                        EffectOutputView::Store(StoreEffectOutputView::Persisted),
                    )
                    &&& w.runs.records[run].pending_output == Some(output)
                },
                state => state is Failed,
            }
        }),
{
    law_store_commits_reach_their_run_only(w, operation);
}

} // verus!
