//! A run makes no more model calls than its limit allows.

use vstd::prelude::*;

use crate::apply::{
    apply_message, apply_messages, cancel_all, cancel_step, deliver_delta, expire_step,
    with_delta_counted, CancelView,
};
use crate::column::{entities_of, sources_of, Entity};
use crate::commit_model::{
    commit_model_step, commit_models, committed_record, model_commit_due, tool_inputs_of,
    with_tool_batch, with_tool_operations, Reasons,
};
use crate::commit_store::{commit_store_step, commit_stores};
use crate::commit_tools::{commit_batch_step, commit_batches};
use crate::discovery::{
    compared_tools, reconcile_discoveries, reconcile_discovery_step, refresh_tool,
    with_definitions, RefreshView,
};
use crate::dispatch::{dispatch_request, dispatch_requests, DispatchView};
use crate::effect::{
    DiscoveredToolView, EffectIngressView, EffectOutputView, EffectRequestView, OperationKind,
    OperationOutcomeView, ToolEffectInputView,
};
use crate::fold::lemma_fold_invariant;
use crate::ingest::{
    ingest_all, ingest_command, ingest_prompt, observe_all, observe_step, ticked, with_message,
};
use crate::policy_stage::{apply_policies, policy_step};
use crate::prepare_model::{known_limit, prepare_model_step, prepare_models};
use crate::prepare_store::{prepare_store_step, prepare_stores};
use crate::publish::{
    cleanup_all, cleanup_due, cleanup_step, deliver_terminal, publish_step, retire_step,
    terminal_item, with_publication, without_all, without_subscription,
};
use crate::queue::QueueView;
use crate::run::{
    CommittedTurnView, RunRecordView, RunStateView, RuntimeCommandView, StreamItemView,
    ToolBatchState,
};
use crate::schedule::{
    after_stage, apply_stage, dispatch_stage, publish_stage, schedule_pass, RigSet, ScheduleView,
};
use crate::streams::StreamingView;
use crate::world::WorldView;

verus! {

/// The model operations that were accepted for a run.
pub open spec fn model_calls(w: WorldView, run: Entity) -> Set<Entity> {
    w.operations.kinds.dom().filter(
        |e: Entity|
            w.operations.kinds[e] == OperationKind::Model && w.operations.operation_of.contains_key(e)
                && w.operations.operation_of[e] == run,
    )
}

/// Whether a run has had no more model operations than a limit, and has one left wherever it may
/// ask for another: while it waits for the model, all calls but the one that it waits for are
/// counted as turns; otherwise, until its outcome, all are.
pub open spec fn within_budget(w: WorldView, run: Entity, limit: u32) -> bool {
    let calls = model_calls(w, run).len();
    &&& w.operations.kinds.dom().finite()
    &&& calls <= limit
    &&& w.runs.states.contains_key(run) && w.runs.records.contains_key(run) ==> match w.runs.states[run] {
        RunStateView::Completed(_) | RunStateView::Failed(_) | RunStateView::Cancelled => true,
        RunStateView::WaitingModel { .. } => calls <= w.runs.records[run].next_turn + 1
            && w.runs.records[run].next_turn < limit,
        _ => calls <= w.runs.records[run].next_turn,
    }
}

/// Whether a run keeps to a limit that is its own.
pub open spec fn keeps_limit(w: WorldView, run: Entity, limit: u32) -> bool {
    within_budget(w, run, limit) && known_limit(w, run) == Some(limit)
}

/// Whether two worlds have the same runs, agents and owners of operations.
spec fn same_runs(w: WorldView, v: WorldView) -> bool {
    &&& v.operations.kinds == w.operations.kinds
    &&& v.operations.operation_of == w.operations.operation_of
    &&& v.runs.states == w.runs.states
    &&& v.runs.records == w.runs.records
    &&& v.runs.run_of == w.runs.run_of
    &&& v.domain.agents == w.domain.agents
}

proof fn lemma_same_runs(w: WorldView, v: WorldView, run: Entity, limit: u32)
    requires
        same_runs(w, v),
    ensures
        within_budget(v, run, limit) == within_budget(w, run, limit),
        known_limit(v, run) == known_limit(w, run),
        model_calls(v, run) == model_calls(w, run),
{
    assert(model_calls(v, run) =~= model_calls(w, run));
}

/// Fewer operations are fewer calls.
proof fn lemma_fewer_calls(w: WorldView, v: WorldView, run: Entity)
    requires
        w.operations.kinds.dom().finite(),
        forall|e: Entity| #[trigger]
            model_calls(v, run).contains(e) ==> model_calls(w, run).contains(e),
    ensures
        model_calls(v, run).len() <= model_calls(w, run).len(),
        model_calls(w, run).finite(),
{
    assert(model_calls(w, run).finite()) by {
        vstd::set_lib::lemma_len_subset(model_calls(w, run), w.operations.kinds.dom());
    }
    vstd::set_lib::lemma_len_subset(model_calls(v, run), model_calls(w, run));
}

/// One more operation is at most one more call.
proof fn lemma_one_more_call(w: WorldView, v: WorldView, run: Entity, made: Entity)
    requires
        w.operations.kinds.dom().finite(),
        forall|e: Entity| #[trigger]
            model_calls(v, run).contains(e) ==> model_calls(w, run).contains(e) || e == made,
    ensures
        model_calls(v, run).len() <= model_calls(w, run).len() + 1,
{
    let calls = model_calls(w, run);
    vstd::set_lib::lemma_len_subset(calls, w.operations.kinds.dom());
    vstd::set_lib::lemma_len_subset(model_calls(v, run), calls.insert(made));
}

proof fn lemma_prompt_keeps(
    w: WorldView,
    start: u64,
    command: RuntimeCommandView,
    run: Entity,
    limit: u32,
)
    requires
        keeps_limit(w, run, limit),
        run.0 < w.next,
    ensures
        keeps_limit(ingest_command(w, start, command), run, limit),
        w.next <= ingest_command(w, start, command).next,
{
    let v = ingest_command(w, start, command);
    assert forall|e: Entity| #[trigger] model_calls(v, run).contains(e) implies model_calls(
        w,
        run,
    ).contains(e) by {}
    lemma_fewer_calls(w, v, run);
}

proof fn lemma_prompts_keep(
    w: WorldView,
    start: u64,
    commands: Seq<RuntimeCommandView>,
    run: Entity,
    limit: u32,
)
    requires
        keeps_limit(w, run, limit),
        run.0 < w.next,
    ensures
        ({
            let t = commands.fold_left(
                w,
                |x: WorldView, c: RuntimeCommandView| ingest_command(x, start, c),
            );
            &&& keeps_limit(t, run, limit)
            &&& w.next <= t.next
        }),
    decreases commands.len(),
{
    reveal_with_fuel(Seq::fold_left, 2);
    if commands.len() > 0 {
        lemma_prompts_keep(w, start, commands.drop_last(), run, limit);
        let before = commands.drop_last().fold_left(
            w,
            |x: WorldView, c: RuntimeCommandView| ingest_command(x, start, c),
        );
        lemma_prompt_keeps(before, start, commands.last(), run, limit);
    }
}

proof fn lemma_ingest_keeps(s: ScheduleView, run: Entity, limit: u32, reasons: Reasons)
    requires
        keeps_limit(s.world, run, limit),
        run.0 < s.world.next,
    ensures
        keeps_limit(after_stage(RigSet::Ingest, s, reasons).world, run, limit),
{
    reveal(after_stage);
    let w = ticked(s.world);
    lemma_same_runs(s.world, w, run, limit);
    lemma_prompts_keep(w, w.next, s.handle.commands.items, run, limit);
    let ingested = ingest_all(w, s.handle.commands.items);
    assert forall|v: WorldView, id: Seq<char>| keeps_limit(v, run, limit) implies keeps_limit(
        #[trigger] observe_step(v, id),
        run,
        limit,
    ) by {
        assert(model_calls(observe_step(v, id), run) =~= model_calls(v, run));
    }
    lemma_fold_invariant(
        s.handle.observations,
        ingested,
        |w: WorldView, id: Seq<char>| observe_step(w, id),
        |w: WorldView| keeps_limit(w, run, limit),
    );
    let observed = observe_all(ingested, s.handle.observations);
    assert forall|v: WorldView, m: EffectIngressView| keeps_limit(v, run, limit) implies keeps_limit(
        #[trigger] with_message(v, m),
        run,
        limit,
    ) by {
        lemma_same_runs(v, with_message(v, m), run, limit);
    }
    lemma_fold_invariant(
        s.effects.ingress.items,
        observed,
        |w: WorldView, m: EffectIngressView| with_message(w, m),
        |w: WorldView| keeps_limit(w, run, limit),
    );
}

proof fn lemma_definitions_keep(
    w: WorldView,
    source: Entity,
    generation: u64,
    definitions: Seq<DiscoveredToolView>,
)
    ensures
        same_runs(w, with_definitions(w, source, generation, definitions)),
    decreases definitions.len(),
{
    if definitions.len() > 0 {
        lemma_definitions_keep(w, source, generation, definitions.drop_last());
    }
}

proof fn lemma_discovery_keeps(w: WorldView, operation: Entity)
    ensures
        same_runs(w, reconcile_discovery_step(w, operation)),
{
    let source = w.operations.discovery_operation_of[operation];
    let generation = w.domain.sources[source].generation;
    assert forall|definitions: Seq<DiscoveredToolView>| same_runs(
        w,
        (#[trigger] compared_tools(w, source, definitions)).world,
    ) by {
        lemma_fold_invariant(
            entities_of(w.domain.discovery_keys.dom()),
            RefreshView { world: w, desired: definitions },
            |r: RefreshView, e: Entity| refresh_tool(r, source, generation, e),
            |r: RefreshView| same_runs(w, r.world),
        );
    }
    assert forall|v: WorldView, definitions: Seq<DiscoveredToolView>| same_runs(
        v,
        #[trigger] with_definitions(v, source, generation, definitions),
    ) by {
        lemma_definitions_keep(v, source, generation, definitions);
    }
}

proof fn lemma_reconcile_keeps(w: WorldView, run: Entity, limit: u32)
    requires
        keeps_limit(w, run, limit),
    ensures
        keeps_limit(crate::reconcile::reconciled(reconcile_discoveries(w)), run, limit),
        keeps_limit(apply_policies(w), run, limit),
{
    assert forall|v: WorldView, e: Entity| same_runs(w, v) implies same_runs(
        w,
        #[trigger] reconcile_discovery_step(v, e),
    ) by {
        lemma_discovery_keeps(v, e);
    }
    lemma_fold_invariant(
        entities_of(w.operations.discovery_inputs.dom()),
        w,
        |w: WorldView, e: Entity| reconcile_discovery_step(w, e),
        |v: WorldView| same_runs(w, v),
    );
    let v = crate::reconcile::reconciled(reconcile_discoveries(w));
    assert(same_runs(w, v));
    lemma_same_runs(w, v, run, limit);
    lemma_fold_invariant(
        entities_of(w.operations.model_inputs.dom()),
        w,
        |w: WorldView, e: Entity| policy_step(w, e),
        |v: WorldView| same_runs(w, v),
    );
    lemma_same_runs(w, apply_policies(w), run, limit);
}

proof fn lemma_prepare_store_keeps(w: WorldView, e: Entity, run: Entity, limit: u32)
    requires
        keeps_limit(w, run, limit),
    ensures
        keeps_limit(prepare_store_step(w, e), run, limit),
{
    let v = prepare_store_step(w, e);
    assert forall|o: Entity| #[trigger] model_calls(v, run).contains(o) implies model_calls(
        w,
        run,
    ).contains(o) by {}
    lemma_fewer_calls(w, v, run);
}

proof fn lemma_prepare_model_keeps(w: WorldView, e: Entity, run: Entity, limit: u32)
    requires
        keeps_limit(w, run, limit),
    ensures
        keeps_limit(prepare_model_step(w, e), run, limit),
{
    let v = prepare_model_step(w, e);
    assert forall|o: Entity| #[trigger] model_calls(v, run).contains(o) implies model_calls(
        w,
        run,
    ).contains(o) || (e == run && o == w.fresh()) by {}
    if e == run {
        lemma_one_more_call(w, v, run, w.fresh());
        if v.runs.states[run] is Failed || v == w {
            assert forall|o: Entity| #[trigger] model_calls(v, run).contains(o) implies model_calls(
                w,
                run,
            ).contains(o) by {}
            lemma_fewer_calls(w, v, run);
        }
    } else {
        lemma_fewer_calls(w, v, run);
    }
}

proof fn lemma_prepare_keeps(w: WorldView, run: Entity, limit: u32)
    requires
        keeps_limit(w, run, limit),
    ensures
        keeps_limit(prepare_models(prepare_stores(w)), run, limit),
{
    assert forall|v: WorldView, e: Entity| keeps_limit(v, run, limit) implies keeps_limit(
        #[trigger] prepare_store_step(v, e),
        run,
        limit,
    ) by {
        lemma_prepare_store_keeps(v, e, run, limit);
    }
    lemma_fold_invariant(
        entities_of(w.runs.states.dom()),
        w,
        |w: WorldView, e: Entity| prepare_store_step(w, e),
        |w: WorldView| keeps_limit(w, run, limit),
    );
    let v = prepare_stores(w);
    assert forall|v: WorldView, e: Entity| keeps_limit(v, run, limit) implies keeps_limit(
        #[trigger] prepare_model_step(v, e),
        run,
        limit,
    ) by {
        lemma_prepare_model_keeps(v, e, run, limit);
    }
    lemma_fold_invariant(
        entities_of(v.runs.states.dom()),
        v,
        |w: WorldView, e: Entity| prepare_model_step(w, e),
        |w: WorldView| keeps_limit(w, run, limit),
    );
}

proof fn lemma_dispatch_keeps(
    w: WorldView,
    outbox: QueueView<EffectRequestView>,
    requests: Seq<EffectRequestView>,
)
    ensures
        same_runs(w, dispatch_requests(w, outbox, requests).world),
{
    lemma_fold_invariant(
        requests,
        DispatchView { world: w, outbox, progress: false },
        |d: DispatchView, r: EffectRequestView| dispatch_request(d, r),
        |d: DispatchView| same_runs(w, d.world),
    );
}

proof fn lemma_message_keeps(s: StreamingView, message: EffectIngressView)
    ensures
        same_runs(s.world, apply_message(s, message).world),
{
    if let EffectIngressView::Delta(delta) = message {
        let run = s.world.operations.operation_of[delta.operation];
        let item = StreamItemView::Delta { sequence: delta.sequence, text: delta.text };
        let counted = StreamingView { world: with_delta_counted(s.world, delta.operation), ..s };
        lemma_fold_invariant(
            sources_of(s.world.runs.subscription_of, run),
            counted,
            |s: StreamingView, e: Entity| deliver_delta(s, e, item),
            |t: StreamingView| same_runs(s.world, t.world),
        );
    }
}

proof fn lemma_publish_keeps(s: StreamingView, run: Entity)
    ensures
        same_runs(s.world, publish_step(s, run).world),
{
    if let Some(item) = terminal_item(s.world.runs.states[run]) {
        let marked = StreamingView { world: with_publication(s.world, run, true), ..s };
        lemma_fold_invariant(
            sources_of(s.world.runs.subscription_of, run),
            marked,
            |s: StreamingView, e: Entity| deliver_terminal(s, e, item),
            |t: StreamingView| same_runs(s.world, t.world),
        );
    }
}

proof fn lemma_effects_keep(s: ScheduleView, run: Entity, limit: u32)
    requires
        keeps_limit(s.world, run, limit),
    ensures
        keeps_limit(dispatch_stage(s).world, run, limit),
        keeps_limit(apply_stage(s).world, run, limit),
        keeps_limit(publish_stage(s).world, run, limit),
{
    let w = s.world;
    assert forall|v: WorldView, q: QueueView<EffectRequestView>, r: Seq<EffectRequestView>| same_runs(
        v,
        (#[trigger] dispatch_requests(v, q, r)).world,
    ) by {
        lemma_dispatch_keeps(v, q, r);
    }
    assert(same_runs(w, dispatch_stage(s).world));
    lemma_same_runs(w, dispatch_stage(s).world, run, limit);
    let start = StreamingView { world: w, streams: s.handle.streams };
    let taken = WorldView {
        resources: crate::world::ResourcesView { messages: Seq::empty(), ..w.resources },
        ..w
    };
    assert forall|t: StreamingView, m: EffectIngressView| same_runs(w, t.world) implies same_runs(
        w,
        (#[trigger] apply_message(t, m)).world,
    ) by {
        lemma_message_keeps(t, m);
    }
    lemma_fold_invariant(
        w.resources.messages,
        StreamingView { world: taken, ..start },
        |s: StreamingView, m: EffectIngressView| apply_message(s, m),
        |t: StreamingView| same_runs(w, t.world),
    );
    let applied = apply_messages(start);
    lemma_fold_invariant(
        entities_of(applied.world.operations.deadlines.dom()),
        applied.world,
        |w: WorldView, e: Entity| expire_step(w, e),
        |v: WorldView| same_runs(w, v),
    );
    lemma_same_runs(w, apply_stage(s).world, run, limit);
    assert forall|t: StreamingView, e: Entity| same_runs(w, t.world) implies same_runs(
        w,
        (#[trigger] publish_step(t, e)).world,
    ) by {
        lemma_publish_keeps(t, e);
    }
    lemma_fold_invariant(
        entities_of(w.runs.states.dom()),
        start,
        |s: StreamingView, e: Entity| publish_step(s, e),
        |t: StreamingView| same_runs(w, t.world),
    );
    lemma_same_runs(w, publish_stage(s).world, run, limit);
}

proof fn lemma_tool_operations_keep(
    w: WorldView,
    owner: Entity,
    batch: Entity,
    inputs: Seq<ToolEffectInputView>,
    run: Entity,
)
    requires
        w.operations.kinds.dom().finite(),
    ensures
        ({
            let v = with_tool_operations(w, owner, batch, inputs);
            &&& v.runs == w.runs
            &&& v.domain == w.domain
            &&& v.operations.kinds.dom().finite()
            &&& forall|e: Entity| #[trigger]
                model_calls(v, run).contains(e) ==> model_calls(w, run).contains(e)
        }),
    decreases inputs.len(),
{
    if inputs.len() > 0 {
        lemma_tool_operations_keep(w, owner, batch, inputs.drop_last(), run);
        let u = with_tool_operations(w, owner, batch, inputs.drop_last());
        let v = with_tool_operations(w, owner, batch, inputs);
        assert forall|e: Entity| #[trigger] model_calls(v, run).contains(e) implies model_calls(
            w,
            run,
        ).contains(e) by {
            assert(model_calls(u, run).contains(e));
        }
    }
}

proof fn lemma_tool_batch_keeps(
    w: WorldView,
    owner: Entity,
    operation: Entity,
    inputs: Seq<ToolEffectInputView>,
    run: Entity,
)
    requires
        w.operations.kinds.dom().finite(),
    ensures
        ({
            let v = with_tool_batch(w, owner, operation, inputs);
            &&& v.runs.states == w.runs.states.insert(
                owner,
                RunStateView::WaitingTools { batch: w.fresh() },
            )
            &&& v.runs.records == w.runs.records
            &&& v.runs.run_of == w.runs.run_of
            &&& v.domain == w.domain
            &&& v.operations.kinds.dom().finite()
            &&& forall|e: Entity| #[trigger]
                model_calls(v, run).contains(e) ==> model_calls(w, run).contains(e)
        }),
{
    let state = ToolBatchState {
        source_model_operation: operation,
        expected: crate::numeric::clamped(inputs.len()),
        committed: false,
    };
    let u = w.with_batch(owner, state);
    lemma_tool_operations_keep(u, owner, w.fresh(), inputs, run);
    let t = with_tool_operations(u, owner, w.fresh(), inputs);
    let v = with_tool_batch(w, owner, operation, inputs);
    assert forall|e: Entity| #[trigger] model_calls(v, run).contains(e) implies model_calls(
        w,
        run,
    ).contains(e) by {
        assert(model_calls(t, run).contains(e));
        assert(model_calls(u, run).contains(e));
    }
}

proof fn lemma_commit_model_keeps(
    w: WorldView,
    e: Entity,
    run: Entity,
    limit: u32,
    reason: Seq<char>,
)
    requires
        keeps_limit(w, run, limit),
    ensures
        keeps_limit(commit_model_step(w, e, reason), run, limit),
{
    let v = commit_model_step(w, e, reason);
    assert forall|u: WorldView, r: Entity, o: Entity, inputs: Seq<ToolEffectInputView>|
        u.operations.kinds.dom().finite() implies ({
        let t = #[trigger] with_tool_batch(u, r, o, inputs);
        &&& t.runs.states == u.runs.states.insert(r, RunStateView::WaitingTools { batch: u.fresh() })
        &&& t.runs.records == u.runs.records
        &&& t.runs.run_of == u.runs.run_of
        &&& t.domain == u.domain
        &&& t.operations.kinds.dom().finite()
        &&& forall|x: Entity| #[trigger]
            model_calls(t, run).contains(x) ==> model_calls(u, run).contains(x)
    }) by {
        lemma_tool_batch_keeps(u, r, o, inputs, run);
    }
    assert forall|o: Entity| #[trigger] model_calls(v, run).contains(o) implies model_calls(
        w,
        run,
    ).contains(o) by {
        if model_commit_due(w, e) {
            if let OperationOutcomeView::Success(EffectOutputView::Model(output)) =
                w.operations.states[e].phase->Settled_0 {
                let owner = w.operations.operation_of[e];
                let input = w.operations.model_inputs[e];
                let record = committed_record(w.runs.records[owner], output);
                let turn = CommittedTurnView { index: w.runs.records[owner].next_turn, output };
                let committed = w.with_run_record(owner, record).with_turn(owner, turn);
                let t = with_tool_batch(
                    committed,
                    owner,
                    e,
                    tool_inputs_of(input.tools, output.tool_calls),
                );
                if model_calls(t, run).contains(o) {
                    assert(model_calls(committed, run).contains(o));
                }
            }
        }
    }
    lemma_fewer_calls(w, v, run);
}

proof fn lemma_commit_store_keeps(w: WorldView, e: Entity, run: Entity, limit: u32)
    requires
        keeps_limit(w, run, limit),
    ensures
        keeps_limit(commit_store_step(w, e), run, limit),
{
    let v = commit_store_step(w, e);
    assert(model_calls(v, run) =~= model_calls(w, run));
}

proof fn lemma_commit_batch_keeps(w: WorldView, e: Entity, run: Entity, limit: u32)
    requires
        keeps_limit(w, run, limit),
    ensures
        keeps_limit(commit_batch_step(w, e), run, limit),
{
    let v = commit_batch_step(w, e);
    let owner = w.operations.batch_of[e];
    assert forall|o: Entity| #[trigger] model_calls(v, run).contains(o) implies model_calls(
        w,
        run,
    ).contains(o) || (owner == run && o == w.fresh()) by {}
    if owner == run {
        lemma_one_more_call(w, v, run, w.fresh());
        if !(v.runs.states[run] is WaitingModel) || v == w {
            assert(model_calls(v, run) =~= model_calls(w, run));
        }
    } else {
        lemma_fewer_calls(w, v, run);
    }
}

proof fn lemma_commits_keep(w: WorldView, run: Entity, limit: u32, reasons: Reasons)
    requires
        keeps_limit(w, run, limit),
    ensures
        keeps_limit(commit_batches(commit_models(commit_stores(w), reasons)), run, limit),
{
    assert forall|v: WorldView, e: Entity| keeps_limit(v, run, limit) implies keeps_limit(
        #[trigger] commit_store_step(v, e),
        run,
        limit,
    ) by {
        lemma_commit_store_keeps(v, e, run, limit);
    }
    lemma_fold_invariant(
        entities_of(w.operations.store_inputs.dom()),
        w,
        |w: WorldView, e: Entity| commit_store_step(w, e),
        |w: WorldView| keeps_limit(w, run, limit),
    );
    let v = commit_stores(w);
    assert forall|v: WorldView, e: Entity| keeps_limit(v, run, limit) implies keeps_limit(
        #[trigger] commit_model_step(v, e, reasons[e]),
        run,
        limit,
    ) by {
        lemma_commit_model_keeps(v, e, run, limit, reasons[e]);
    }
    lemma_fold_invariant(
        entities_of(v.operations.model_inputs.dom()),
        v,
        |w: WorldView, e: Entity| commit_model_step(w, e, reasons[e]),
        |w: WorldView| keeps_limit(w, run, limit),
    );
    let u = commit_models(v, reasons);
    assert forall|v: WorldView, e: Entity| keeps_limit(v, run, limit) implies keeps_limit(
        #[trigger] commit_batch_step(v, e),
        run,
        limit,
    ) by {
        lemma_commit_batch_keeps(v, e, run, limit);
    }
    lemma_fold_invariant(
        entities_of(u.operations.batches.dom()),
        u,
        |w: WorldView, e: Entity| commit_batch_step(w, e),
        |w: WorldView| keeps_limit(w, run, limit),
    );
}

proof fn lemma_without_keeps(w: WorldView, e: Entity, run: Entity, limit: u32)
    requires
        within_budget(w, run, limit),
    ensures
        within_budget(w.without(e), run, limit),
{
    let v = w.without(e);
    assert forall|o: Entity| #[trigger] model_calls(v, run).contains(o) implies model_calls(
        w,
        run,
    ).contains(o) by {}
    lemma_fewer_calls(w, v, run);
}

proof fn lemma_without_all_keeps(w: WorldView, ids: Seq<Entity>, run: Entity, limit: u32)
    requires
        within_budget(w, run, limit),
    ensures
        within_budget(without_all(w, ids), run, limit),
{
    assert forall|v: WorldView, e: Entity| within_budget(v, run, limit) implies within_budget(
        #[trigger] v.without(e),
        run,
        limit,
    ) by {
        lemma_without_keeps(v, e, run, limit);
    }
    lemma_fold_invariant(
        ids,
        w,
        |w: WorldView, e: Entity| w.without(e),
        |v: WorldView| within_budget(v, run, limit),
    );
}

proof fn lemma_cleanup_keeps(s: StreamingView, e: Entity, run: Entity, limit: u32)
    requires
        within_budget(s.world, run, limit),
    ensures
        within_budget(cleanup_step(s, e).world, run, limit),
{
    if cleanup_due(s.world, e) {
        let w = s.world;
        let w1 = without_all(w, sources_of(w.operations.operation_of, e));
        lemma_without_all_keeps(w, sources_of(w.operations.operation_of, e), run, limit);
        let w2 = without_all(w1, sources_of(w.runs.turn_of, e));
        lemma_without_all_keeps(w1, sources_of(w.runs.turn_of, e), run, limit);
        let rest = without_all(w2, sources_of(w.operations.batch_of, e));
        lemma_without_all_keeps(w2, sources_of(w.operations.batch_of, e), run, limit);
        assert forall|t: StreamingView, o: Entity| within_budget(
            t.world,
            run,
            limit,
        ) implies within_budget((#[trigger] without_subscription(t, o)).world, run, limit) by {
            lemma_without_keeps(t.world, o, run, limit);
        }
        let start = StreamingView { world: rest, ..s };
        lemma_fold_invariant(
            sources_of(w.runs.subscription_of, e),
            start,
            |s: StreamingView, e: Entity| without_subscription(s, e),
            |t: StreamingView| within_budget(t.world, run, limit),
        );
        let unsubscribed = sources_of(w.runs.subscription_of, e).fold_left(
            start,
            |s: StreamingView, e: Entity| without_subscription(s, e),
        );
        lemma_without_keeps(unsubscribed.world, e, run, limit);
        let gone = unsubscribed.world.without(e);
        lemma_same_runs(gone, gone.progressed(), run, limit);
    }
}

proof fn lemma_cleanup_stage_keeps(s: ScheduleView, run: Entity, limit: u32, reasons: Reasons)
    requires
        within_budget(s.world, run, limit),
    ensures
        within_budget(after_stage(RigSet::Cleanup, s, reasons).world, run, limit),
{
    reveal(after_stage);
    let w = s.world;
    let c = CancelView { world: w, outbox: s.effects.cancellations };
    lemma_fold_invariant(
        entities_of(w.operations.operation_of.dom()),
        c,
        |c: CancelView, e: Entity| cancel_step(c, e),
        |c: CancelView| same_runs(w, c.world),
    );
    let cancelled = cancel_all(c);
    lemma_same_runs(w, cancelled.world, run, limit);
    let start = StreamingView { world: cancelled.world, streams: s.handle.streams };
    assert forall|t: StreamingView, e: Entity| within_budget(
        t.world,
        run,
        limit,
    ) implies within_budget((#[trigger] cleanup_step(t, e)).world, run, limit) by {
        lemma_cleanup_keeps(t, e, run, limit);
    }
    lemma_fold_invariant(
        entities_of(start.world.runs.states.dom()),
        start,
        |s: StreamingView, e: Entity| cleanup_step(s, e),
        |t: StreamingView| within_budget(t.world, run, limit),
    );
    let cleaned = cleanup_all(start);
    assert forall|v: WorldView, e: Entity| within_budget(v, run, limit) implies within_budget(
        #[trigger] retire_step(v, e),
        run,
        limit,
    ) by {
        let ids = sources_of(v.domain.grant_for_tool, e);
        lemma_without_all_keeps(v, ids, run, limit);
        lemma_without_keeps(without_all(v, ids), e, run, limit);
        let gone = without_all(v, ids).without(e);
        lemma_same_runs(gone, gone.progressed(), run, limit);
    }
    lemma_fold_invariant(
        entities_of(cleaned.world.domain.retired.dom()),
        cleaned.world,
        |w: WorldView, e: Entity| retire_step(w, e),
        |v: WorldView| within_budget(v, run, limit),
    );
}

/// No stage of the schedule accepts more model operations for a run than its limit: a run that
/// keeps to the limit before the stage keeps to it after.
pub proof fn law_stages_keep_the_limit(
    stage: RigSet,
    s: ScheduleView,
    run: Entity,
    limit: u32,
    reasons: Reasons,
)
    requires
        keeps_limit(s.world, run, limit),
        stage == RigSet::Ingest ==> run.0 < s.world.next,
    ensures
        within_budget(after_stage(stage, s, reasons).world, run, limit),
        stage != RigSet::Cleanup ==> known_limit(after_stage(stage, s, reasons).world, run)
            == Some(limit),
{
    match stage {
        RigSet::Ingest => lemma_ingest_keeps(s, run, limit, reasons),
        RigSet::Cleanup => lemma_cleanup_stage_keeps(s, run, limit, reasons),
        _ => {
            reveal(after_stage);
            lemma_reconcile_keeps(s.world, run, limit);
            lemma_prepare_keeps(s.world, run, limit);
            lemma_effects_keep(s, run, limit);
            lemma_commits_keep(s.world, run, limit, reasons);
        },
    }
}

/// A run has at most as many accepted model operations as its limit allows, over every pass of
/// the schedule.
pub proof fn law_runs_stay_within_their_limit(
    s: ScheduleView,
    run: Entity,
    limit: u32,
    reasons: Reasons,
)
    requires
        keeps_limit(s.world, run, limit),
        run.0 < s.world.next,
    ensures
        within_budget(schedule_pass(s, reasons).world, run, limit),
        model_calls(schedule_pass(s, reasons).world, run).len() <= limit,
{
    reveal(schedule_pass);
    let s0 = after_stage(RigSet::Ingest, s, reasons);
    let s1 = after_stage(RigSet::Reconcile, s0, reasons);
    let s2 = after_stage(RigSet::Prepare, s1, reasons);
    let s3 = after_stage(RigSet::Policy, s2, reasons);
    let s4 = after_stage(RigSet::Dispatch, s3, reasons);
    let s5 = after_stage(RigSet::Apply, s4, reasons);
    let s6 = after_stage(RigSet::Commit, s5, reasons);
    let s7 = after_stage(RigSet::Persist, s6, reasons);
    let s8 = after_stage(RigSet::Publish, s7, reasons);
    law_stages_keep_the_limit(RigSet::Ingest, s, run, limit, reasons);
    law_stages_keep_the_limit(RigSet::Reconcile, s0, run, limit, reasons);
    law_stages_keep_the_limit(RigSet::Prepare, s1, run, limit, reasons);
    law_stages_keep_the_limit(RigSet::Policy, s2, run, limit, reasons);
    law_stages_keep_the_limit(RigSet::Dispatch, s3, run, limit, reasons);
    law_stages_keep_the_limit(RigSet::Apply, s4, run, limit, reasons);
    law_stages_keep_the_limit(RigSet::Commit, s5, run, limit, reasons);
    law_stages_keep_the_limit(RigSet::Persist, s6, run, limit, reasons);
    law_stages_keep_the_limit(RigSet::Publish, s7, run, limit, reasons);
    law_stages_keep_the_limit(RigSet::Cleanup, s8, run, limit, reasons);
}

/// A run that a prompt starts has made no model call, so it keeps to any limit. (No operation may
/// belong to an entity that was not made yet.)
pub proof fn law_new_runs_have_made_no_call(
    w: WorldView,
    agent: Entity,
    run_id: Seq<char>,
    record: RunRecordView,
    subscriber: Option<u64>,
    limit: u32,
)
    requires
        w.operations.kinds.dom().finite(),
        record.next_turn == 0,
        forall|e: Entity| #[trigger]
            w.operations.operation_of.contains_key(e) ==> w.operations.operation_of[e] != w.fresh(),
    ensures
        model_calls(ingest_prompt(w, agent, run_id, record, subscriber), w.fresh())
            == Set::<Entity>::empty(),
        within_budget(
            ingest_prompt(w, agent, run_id, record, subscriber),
            w.fresh(),
            limit,
        ),
{
    let v = ingest_prompt(w, agent, run_id, record, subscriber);
    assert(model_calls(v, w.fresh()) =~= Set::<Entity>::empty());
}

/// A run that has used up its limit asks for no further model call when its tool batch is
/// committed: it fails, keeps the results, and no operation is made.
pub proof fn law_spent_runs_fail(w: WorldView, batch: Entity, limit: u32)
    requires
        crate::commit_tools::batch_commit_due(w, batch),
        crate::commit_tools::first_failure(w, crate::commit_tools::batch_order(w, batch), 0) is None,
        crate::commit_tools::all_answered(w, crate::commit_tools::batch_order(w, batch)),
        known_limit(w, w.operations.batch_of[batch]) == Some(limit),
        w.runs.records[w.operations.batch_of[batch]].next_turn >= limit,
    ensures
        ({
            let run = w.operations.batch_of[batch];
            let v = commit_batch_step(w, batch);
            &&& v.runs.states[run] == RunStateView::Failed(
                crate::effect::CanonicalErrorView::ModelCallBudget { limit },
            )
            &&& v.operations.batches[batch].committed
            &&& v.operations.model_inputs == w.operations.model_inputs
            &&& v.operations.operation_of == w.operations.operation_of
            &&& v.next == w.next
        }),
{
}

} // verus!
