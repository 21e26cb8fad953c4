//! The outcome of a run is final, and is kept until it has been observed.

use vstd::prelude::*;

use crate::apply::{
    apply_message, apply_messages, cancel_all, cancel_step, deliver_delta, expire_step,
    with_delta_counted, CancelView,
};
use crate::column::{entities_of, lemma_sources, sources_of, without_target, Entity};
use crate::commit_model::{commit_model_step, commit_models, with_tool_operations, Reasons};
use crate::commit_store::{commit_store_step, commit_stores};
use crate::commit_tools::{commit_batch_step, commit_batches};
use crate::discovery::{
    awaited_by_source, compared_tools, discovery_due, first_repeated_key, ordered_definitions,
    reconcile_discoveries, reconcile_discovery_step, refresh_tool, refreshed, with_definitions,
    RefreshView,
};
use crate::dispatch::{dispatch_request, dispatch_requests, DispatchView};
use crate::effect::{DiscoveredToolView, EffectIngressView, EffectRequestView, ToolEffectInputView};
use crate::fold::lemma_fold_invariant;
use crate::ingest::{ingest_all, ingest_command, observe_all, observe_step, with_message};
use crate::policy_stage::{apply_policies, policy_step};
use crate::prepare_model::{prepare_model_step, prepare_models};
use crate::prepare_store::{prepare_store_step, prepare_stores};
use crate::publish::{
    cleanup_all, cleanup_due, cleanup_step, deliver_terminal, publish_step, retire_step,
    terminal_item, without_all, without_subscription,
};
use crate::queue::QueueView;
use crate::run::{RunStateView, RuntimeCommandView, StreamItemView};
use crate::schedule::{
    after_stage, apply_stage, dispatch_stage, publish_stage, RigSet, ScheduleView,
};
use crate::streams::StreamingView;
use crate::world::{terminal_state, WorldView};

verus! {

/// Whether a run has an outcome.
pub open spec fn has_outcome(w: WorldView, run: Entity, outcome: RunStateView) -> bool {
    &&& w.runs.states.contains_key(run)
    &&& w.runs.states[run] == outcome
    &&& terminal_state(outcome)
}

/// Whether a run has an outcome and is older than what commands will make.
pub open spec fn has_old_outcome(w: WorldView, run: Entity, outcome: RunStateView) -> bool {
    &&& has_outcome(w, run, outcome)
    &&& run.0 < w.next
}

proof fn lemma_command_keeps_outcome(
    w: WorldView,
    batch_start: u64,
    command: RuntimeCommandView,
    run: Entity,
    outcome: RunStateView,
)
    requires
        has_old_outcome(w, run, outcome),
    ensures
        has_old_outcome(ingest_command(w, batch_start, command), run, outcome),
{
}

proof fn lemma_commands_keep_outcome(
    w: WorldView,
    start: u64,
    commands: Seq<RuntimeCommandView>,
    run: Entity,
    outcome: RunStateView,
)
    requires
        has_old_outcome(w, run, outcome),
    ensures
        has_old_outcome(
            commands.fold_left(
                w,
                |x: WorldView, c: RuntimeCommandView| ingest_command(x, start, c),
            ),
            run,
            outcome,
        ),
    decreases commands.len(),
{
    reveal_with_fuel(Seq::fold_left, 2);
    if commands.len() > 0 {
        lemma_commands_keep_outcome(w, start, commands.drop_last(), run, outcome);
        let before = commands.drop_last().fold_left(
            w,
            |x: WorldView, c: RuntimeCommandView| ingest_command(x, start, c),
        );
        lemma_command_keeps_outcome(before, start, commands.last(), run, outcome);
    }
}

proof fn lemma_definitions_keep_runs(
    w: WorldView,
    source: Entity,
    generation: u64,
    definitions: Seq<DiscoveredToolView>,
)
    ensures
        with_definitions(w, source, generation, definitions).runs == w.runs,
    decreases definitions.len(),
{
    if definitions.len() > 0 {
        lemma_definitions_keep_runs(w, source, generation, definitions.drop_last());
    }
}

proof fn lemma_discovery_keeps_runs(w: WorldView, operation: Entity)
    ensures
        reconcile_discovery_step(w, operation).runs == w.runs,
{
    let source = w.operations.discovery_operation_of[operation];
    let generation = w.domain.sources[source].generation;
    assert forall|definitions: Seq<DiscoveredToolView>| #[trigger]
        compared_tools(w, source, definitions).world.runs == w.runs by {
        lemma_fold_invariant(
            entities_of(w.domain.discovery_keys.dom()),
            RefreshView { world: w, desired: definitions },
            |r: RefreshView, e: Entity| refresh_tool(r, source, generation, e),
            |r: RefreshView| r.world.runs == w.runs,
        );
    }
    assert forall|v: WorldView, definitions: Seq<DiscoveredToolView>| #[trigger]
        with_definitions(v, source, generation, definitions).runs == v.runs by {
        lemma_definitions_keep_runs(v, source, generation, definitions);
    }
}

proof fn lemma_tool_operations_keep_runs(
    w: WorldView,
    run: Entity,
    batch: Entity,
    inputs: Seq<ToolEffectInputView>,
)
    ensures
        with_tool_operations(w, run, batch, inputs).runs == w.runs,
    decreases inputs.len(),
{
    if inputs.len() > 0 {
        lemma_tool_operations_keep_runs(w, run, batch, inputs.drop_last());
    }
}

proof fn lemma_model_commit_keeps_outcome(
    w: WorldView,
    operation: Entity,
    run: Entity,
    outcome: RunStateView,
    reason: Seq<char>,
)
    requires
        has_outcome(w, run, outcome),
    ensures
        has_outcome(commit_model_step(w, operation, reason), run, outcome),
{
    assert forall|v: WorldView, r: Entity, batch: Entity, inputs: Seq<ToolEffectInputView>| #[trigger]
        with_tool_operations(v, r, batch, inputs).runs == v.runs by {
        lemma_tool_operations_keep_runs(v, r, batch, inputs);
    }
}

proof fn lemma_delivery_keeps_states(s: StreamingView, ids: Seq<Entity>, item: StreamItemView)
    ensures
        ids.fold_left(
            s,
            |s: StreamingView, e: Entity| deliver_delta(s, e, item),
        ).world.runs.states == s.world.runs.states,
        ids.fold_left(
            s,
            |s: StreamingView, e: Entity| deliver_terminal(s, e, item),
        ).world.runs.states == s.world.runs.states,
{
    lemma_fold_invariant(
        ids,
        s,
        |s: StreamingView, e: Entity| deliver_delta(s, e, item),
        |t: StreamingView| t.world.runs.states == s.world.runs.states,
    );
    lemma_fold_invariant(
        ids,
        s,
        |s: StreamingView, e: Entity| deliver_terminal(s, e, item),
        |t: StreamingView| t.world.runs.states == s.world.runs.states,
    );
}

proof fn lemma_message_keeps_states(s: StreamingView, message: EffectIngressView)
    ensures
        apply_message(s, message).world.runs.states == s.world.runs.states,
{
    if let EffectIngressView::Delta(delta) = message {
        let run = s.world.operations.operation_of[delta.operation];
        let item = StreamItemView::Delta { sequence: delta.sequence, text: delta.text };
        let counted = StreamingView { world: with_delta_counted(s.world, delta.operation), ..s };
        lemma_delivery_keeps_states(counted, sources_of(s.world.runs.subscription_of, run), item);
    }
}

proof fn lemma_publish_keeps_states(s: StreamingView, run: Entity)
    ensures
        publish_step(s, run).world.runs.states == s.world.runs.states,
{
    if let Some(item) = terminal_item(s.world.runs.states[run]) {
        let marked = StreamingView {
            world: crate::publish::with_publication(s.world, run, true),
            ..s
        };
        lemma_delivery_keeps_states(marked, sources_of(s.world.runs.subscription_of, run), item);
    }
}

proof fn lemma_dispatch_keeps_runs(
    w: WorldView,
    outbox: QueueView<EffectRequestView>,
    requests: Seq<EffectRequestView>,
)
    ensures
        dispatch_requests(w, outbox, requests).world.runs == w.runs,
{
    lemma_fold_invariant(
        requests,
        DispatchView { world: w, outbox, progress: false },
        |d: DispatchView, r: EffectRequestView| dispatch_request(d, r),
        |d: DispatchView| d.world.runs == w.runs,
    );
}

/// Taking in commands, acknowledgements and completions leaves the outcome of a run as it is.
pub proof fn law_ingest_keeps_outcomes(
    s: ScheduleView,
    run: Entity,
    outcome: RunStateView,
    reasons: Reasons,
)
    requires
        has_old_outcome(s.world, run, outcome),
    ensures
        has_outcome(after_stage(RigSet::Ingest, s, reasons).world, run, outcome),
{
    reveal(after_stage);
    let w = crate::ingest::ticked(s.world);
    lemma_commands_keep_outcome(w, w.next, s.handle.commands.items, run, outcome);
    let ingested = ingest_all(w, s.handle.commands.items);
    assert(has_outcome(ingested, run, outcome));
    lemma_fold_invariant(
        s.handle.observations,
        ingested,
        |w: WorldView, id: Seq<char>| observe_step(w, id),
        |w: WorldView| has_outcome(w, run, outcome),
    );
    let observed = observe_all(ingested, s.handle.observations);
    lemma_fold_invariant(
        s.effects.ingress.items,
        observed,
        |w: WorldView, m: EffectIngressView| with_message(w, m),
        |w: WorldView| has_outcome(w, run, outcome),
    );
}

proof fn lemma_preparation_keeps_outcomes(w: WorldView, run: Entity, outcome: RunStateView)
    requires
        has_outcome(w, run, outcome),
    ensures
        has_outcome(prepare_models(prepare_stores(w)), run, outcome),
        has_outcome(reconcile_discoveries(w), run, outcome),
        has_outcome(apply_policies(w), run, outcome),
{
    lemma_fold_invariant(
        entities_of(w.runs.states.dom()),
        w,
        |w: WorldView, e: Entity| prepare_store_step(w, e),
        |w: WorldView| has_outcome(w, run, outcome),
    );
    let v = prepare_stores(w);
    lemma_fold_invariant(
        entities_of(v.runs.states.dom()),
        v,
        |w: WorldView, e: Entity| prepare_model_step(w, e),
        |w: WorldView| has_outcome(w, run, outcome),
    );
    assert forall|v: WorldView, e: Entity| has_outcome(v, run, outcome) implies has_outcome(
        #[trigger] reconcile_discovery_step(v, e),
        run,
        outcome,
    ) by {
        lemma_discovery_keeps_runs(v, e);
    }
    lemma_fold_invariant(
        entities_of(w.operations.discovery_inputs.dom()),
        w,
        |w: WorldView, e: Entity| reconcile_discovery_step(w, e),
        |w: WorldView| has_outcome(w, run, outcome),
    );
    lemma_fold_invariant(
        entities_of(w.operations.model_inputs.dom()),
        w,
        |w: WorldView, e: Entity| policy_step(w, e),
        |w: WorldView| has_outcome(w, run, outcome),
    );
}

proof fn lemma_commits_keep_outcomes(
    w: WorldView,
    run: Entity,
    outcome: RunStateView,
    reasons: Reasons,
)
    requires
        has_outcome(w, run, outcome),
    ensures
        has_outcome(commit_batches(commit_models(commit_stores(w), reasons)), run, outcome),
{
    lemma_fold_invariant(
        entities_of(w.operations.store_inputs.dom()),
        w,
        |w: WorldView, e: Entity| commit_store_step(w, e),
        |w: WorldView| has_outcome(w, run, outcome),
    );
    let v = commit_stores(w);
    assert forall|v: WorldView, e: Entity| has_outcome(v, run, outcome) implies has_outcome(
        #[trigger] commit_model_step(v, e, reasons[e]),
        run,
        outcome,
    ) by {
        lemma_model_commit_keeps_outcome(v, e, run, outcome, reasons[e]);
    }
    lemma_fold_invariant(
        entities_of(v.operations.model_inputs.dom()),
        v,
        |w: WorldView, e: Entity| commit_model_step(w, e, reasons[e]),
        |w: WorldView| has_outcome(w, run, outcome),
    );
    let u = commit_models(v, reasons);
    lemma_fold_invariant(
        entities_of(u.operations.batches.dom()),
        u,
        |w: WorldView, e: Entity| commit_batch_step(w, e),
        |w: WorldView| has_outcome(w, run, outcome),
    );
}

proof fn lemma_apply_keeps_outcomes(s: ScheduleView, run: Entity, outcome: RunStateView)
    requires
        has_outcome(s.world, run, outcome),
    ensures
        has_outcome(apply_stage(s).world, run, outcome),
        has_outcome(dispatch_stage(s).world, run, outcome),
        has_outcome(publish_stage(s).world, run, outcome),
{
    let start = StreamingView { world: s.world, streams: s.handle.streams };
    let taken = WorldView {
        resources: crate::world::ResourcesView { messages: Seq::empty(), ..s.world.resources },
        ..s.world
    };
    assert forall|t: StreamingView, m: EffectIngressView| has_outcome(
        t.world,
        run,
        outcome,
    ) implies has_outcome((#[trigger] apply_message(t, m)).world, run, outcome) by {
        lemma_message_keeps_states(t, m);
    }
    lemma_fold_invariant(
        s.world.resources.messages,
        StreamingView { world: taken, ..start },
        |s: StreamingView, m: EffectIngressView| apply_message(s, m),
        |t: StreamingView| has_outcome(t.world, run, outcome),
    );
    let applied = apply_messages(start);
    lemma_fold_invariant(
        entities_of(applied.world.operations.deadlines.dom()),
        applied.world,
        |w: WorldView, e: Entity| expire_step(w, e),
        |w: WorldView| has_outcome(w, run, outcome),
    );
    assert forall|w: WorldView, q: QueueView<EffectRequestView>, r: Seq<EffectRequestView>| #[trigger]
        dispatch_requests(w, q, r).world.runs == w.runs by {
        lemma_dispatch_keeps_runs(w, q, r);
    }
    assert forall|t: StreamingView, e: Entity| has_outcome(t.world, run, outcome) implies has_outcome(
        (#[trigger] publish_step(t, e)).world,
        run,
        outcome,
    ) by {
        lemma_publish_keeps_states(t, e);
    }
    lemma_fold_invariant(
        entities_of(s.world.runs.states.dom()),
        start,
        |s: StreamingView, e: Entity| publish_step(s, e),
        |t: StreamingView| has_outcome(t.world, run, outcome),
    );
}

/// Every stage between ingestion and cleanup leaves the outcome of a run as it is.
pub proof fn law_outcomes_are_final(
    stage: RigSet,
    s: ScheduleView,
    run: Entity,
    outcome: RunStateView,
    reasons: Reasons,
)
    requires
        stage != RigSet::Ingest,
        stage != RigSet::Cleanup,
        has_outcome(s.world, run, outcome),
    ensures
        has_outcome(after_stage(stage, s, reasons).world, run, outcome),
{
    reveal(after_stage);
    lemma_preparation_keeps_outcomes(s.world, run, outcome);
    lemma_commits_keep_outcomes(s.world, run, outcome, reasons);
    lemma_apply_keeps_outcomes(s, run, outcome);
}

/// Whether an entity is a run and neither an operation, a turn, a batch or a subscription of one
/// nor a capability or a grant of one.
pub open spec fn is_only_a_run(w: WorldView, run: Entity) -> bool {
    &&& !w.operations.operation_of.contains_key(run)
    &&& !w.runs.turn_of.contains_key(run)
    &&& !w.operations.batch_of.contains_key(run)
    &&& !w.runs.subscription_of.contains_key(run)
    &&& !w.domain.grant_for_tool.contains_key(run)
    &&& !w.domain.retired.contains_key(run)
}

/// Whether a run has an outcome that nobody has observed.
pub open spec fn has_unobserved_outcome(w: WorldView, run: Entity, outcome: RunStateView) -> bool {
    &&& has_outcome(w, run, outcome)
    &&& w.runs.records.contains_key(run)
    &&& !w.runs.records[run].observed
    &&& is_only_a_run(w, run)
}

/// Whether the relations that cleanup follows are finite, as those of every world are.
pub open spec fn has_finite_relations(w: WorldView) -> bool {
    &&& w.operations.operation_of.dom().finite()
    &&& w.runs.turn_of.dom().finite()
    &&& w.operations.batch_of.dom().finite()
    &&& w.runs.subscription_of.dom().finite()
    &&& w.domain.grant_for_tool.dom().finite()
    &&& w.domain.retired.dom().finite()
}

spec fn survives(w: WorldView, run: Entity, outcome: RunStateView) -> bool {
    has_unobserved_outcome(w, run, outcome) && has_finite_relations(w)
}

proof fn lemma_without_finite(relation: Map<Entity, Entity>, e: Entity)
    requires
        relation.dom().finite(),
    ensures
        without_target(relation.remove(e), e).dom().finite(),
{
    vstd::set_lib::lemma_len_subset(
        without_target(relation.remove(e), e).dom(),
        relation.dom(),
    );
}

proof fn lemma_without_survives(w: WorldView, e: Entity, run: Entity, outcome: RunStateView)
    requires
        survives(w, run, outcome),
        e != run,
    ensures
        survives(w.without(e), run, outcome),
{
    lemma_without_finite(w.operations.operation_of, e);
    lemma_without_finite(w.runs.turn_of, e);
    lemma_without_finite(w.operations.batch_of, e);
    lemma_without_finite(w.runs.subscription_of, e);
    lemma_without_finite(w.domain.grant_for_tool, e);
}

proof fn lemma_without_all_survives(
    w: WorldView,
    ids: Seq<Entity>,
    run: Entity,
    outcome: RunStateView,
)
    requires
        survives(w, run, outcome),
        !ids.contains(run),
    ensures
        survives(without_all(w, ids), run, outcome),
    decreases ids.len(),
{
    reveal_with_fuel(Seq::fold_left, 2);
    if ids.len() > 0 {
        let front = ids.drop_last();
        if front.contains(run) {
            let k = choose|k: int| 0 <= k < front.len() && front[k] == run;
            assert(ids[k] == run);
        }
        lemma_without_all_survives(w, front, run, outcome);
        assert(ids[ids.len() - 1] != run) by {
            if ids[ids.len() - 1] == run {
                assert(ids.contains(run));
            }
        }
        lemma_without_survives(without_all(w, front), ids.last(), run, outcome);
    }
}

proof fn lemma_unsubscribed_survives(
    s: StreamingView,
    ids: Seq<Entity>,
    run: Entity,
    outcome: RunStateView,
)
    requires
        survives(s.world, run, outcome),
        !ids.contains(run),
    ensures
        survives(
            ids.fold_left(s, |s: StreamingView, e: Entity| without_subscription(s, e)).world,
            run,
            outcome,
        ),
    decreases ids.len(),
{
    reveal_with_fuel(Seq::fold_left, 2);
    if ids.len() > 0 {
        let front = ids.drop_last();
        if front.contains(run) {
            let k = choose|k: int| 0 <= k < front.len() && front[k] == run;
            assert(ids[k] == run);
        }
        lemma_unsubscribed_survives(s, front, run, outcome);
        assert(ids[ids.len() - 1] != run) by {
            if ids[ids.len() - 1] == run {
                assert(ids.contains(run));
            }
        }
        let before = front.fold_left(s, |s: StreamingView, e: Entity| without_subscription(s, e));
        lemma_without_survives(before.world, ids.last(), run, outcome);
    }
}

proof fn lemma_cleanup_survives(s: StreamingView, e: Entity, run: Entity, outcome: RunStateView)
    requires
        survives(s.world, run, outcome),
    ensures
        survives(cleanup_step(s, e).world, run, outcome),
{
    if cleanup_due(s.world, e) {
        let w = s.world;
        lemma_sources(w.operations.operation_of, e, run);
        lemma_sources(w.runs.turn_of, e, run);
        lemma_sources(w.operations.batch_of, e, run);
        lemma_sources(w.runs.subscription_of, e, run);
        let w1 = without_all(w, sources_of(w.operations.operation_of, e));
        lemma_without_all_survives(w, sources_of(w.operations.operation_of, e), run, outcome);
        let w2 = without_all(w1, sources_of(w.runs.turn_of, e));
        lemma_without_all_survives(w1, sources_of(w.runs.turn_of, e), run, outcome);
        lemma_without_all_survives(w2, sources_of(w.operations.batch_of, e), run, outcome);
        let rest = without_all(w2, sources_of(w.operations.batch_of, e));
        let start = StreamingView { world: rest, ..s };
        lemma_unsubscribed_survives(start, sources_of(w.runs.subscription_of, e), run, outcome);
        let unsubscribed = sources_of(w.runs.subscription_of, e).fold_left(
            start,
            |s: StreamingView, e: Entity| without_subscription(s, e),
        );
        lemma_without_survives(unsubscribed.world, e, run, outcome);
    }
}

proof fn lemma_retirement_survives(w: WorldView, tool: Entity, run: Entity, outcome: RunStateView)
    requires
        survives(w, run, outcome),
    ensures
        survives(retire_step(w, tool), run, outcome),
{
    if retire_step(w, tool) != w {
        lemma_sources(w.domain.grant_for_tool, tool, run);
        lemma_without_all_survives(w, sources_of(w.domain.grant_for_tool, tool), run, outcome);
        lemma_without_survives(
            without_all(w, sources_of(w.domain.grant_for_tool, tool)),
            tool,
            run,
            outcome,
        );
    }
}

/// Cleanup keeps a run whose outcome nobody has observed.
pub proof fn law_unobserved_outcomes_are_kept(
    s: ScheduleView,
    run: Entity,
    outcome: RunStateView,
    reasons: Reasons,
)
    requires
        has_unobserved_outcome(s.world, run, outcome),
        has_finite_relations(s.world),
    ensures
        has_unobserved_outcome(after_stage(RigSet::Cleanup, s, reasons).world, run, outcome),
{
    reveal(after_stage);
    let c = CancelView { world: s.world, outbox: s.effects.cancellations };
    lemma_fold_invariant(
        entities_of(c.world.operations.operation_of.dom()),
        c,
        |c: CancelView, e: Entity| cancel_step(c, e),
        |c: CancelView| survives(c.world, run, outcome),
    );
    let cancelled = cancel_all(c);
    let start = StreamingView { world: cancelled.world, streams: s.handle.streams };
    assert forall|t: StreamingView, e: Entity| survives(t.world, run, outcome) implies survives(
        (#[trigger] cleanup_step(t, e)).world,
        run,
        outcome,
    ) by {
        lemma_cleanup_survives(t, e, run, outcome);
    }
    lemma_fold_invariant(
        entities_of(start.world.runs.states.dom()),
        start,
        |s: StreamingView, e: Entity| cleanup_step(s, e),
        |t: StreamingView| survives(t.world, run, outcome),
    );
    let cleaned = cleanup_all(start);
    assert forall|w: WorldView, e: Entity| survives(w, run, outcome) implies survives(
        #[trigger] retire_step(w, e),
        run,
        outcome,
    ) by {
        lemma_retirement_survives(w, e, run, outcome);
    }
    lemma_fold_invariant(
        entities_of(cleaned.world.domain.retired.dom()),
        cleaned.world,
        |w: WorldView, e: Entity| retire_step(w, e),
        |w: WorldView| survives(w, run, outcome),
    );
}

/// A discovery outcome that its source no longer waits for, because a newer refresh was asked for,
/// changes no capability.
pub proof fn law_stale_discoveries_change_nothing(w: WorldView, operation: Entity)
    requires
        discovery_due(w, operation),
        !awaited_by_source(w, operation, w.operations.discovery_operation_of[operation]),
    ensures
        reconcile_discovery_step(w, operation).domain == w.domain,
        reconcile_discovery_step(w, operation).stable_ids == w.stable_ids,
        reconcile_discovery_step(w, operation).runs == w.runs,
{
}

/// A discovery outcome that holds a key twice is not taken over in part: the source has failed,
/// and every tool is as it was.
pub proof fn law_invalid_discoveries_change_no_tool(
    w: WorldView,
    source: Entity,
    tools: Seq<DiscoveredToolView>,
)
    requires
        first_repeated_key(ordered_definitions(tools), 0) is Some,
    ensures
        refreshed(w, source, tools).domain.tools == w.domain.tools,
        refreshed(w, source, tools).domain.retired == w.domain.retired,
        refreshed(w, source, tools).stable_ids == w.stable_ids,
        refreshed(w, source, tools).domain.sources[source].state is Failed,
{
}

} // verus!
