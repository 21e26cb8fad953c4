//! Publication of outcomes, metrics and cleanup.

use vstd::prelude::*;

use crate::column::{entities_of, sources_of, Entity};
use crate::effect::{OperationPhase, OperationPhaseView, ToolDecision, ToolDecisionView};
use crate::fold::lemma_fold_next;
use crate::queue::Queue;
use crate::run::{
    RunState, RunStateView, RuntimeMetrics, StreamItem, StreamItemView, StreamTerminal,
    StreamTerminalView, SubscriptionState,
};
use crate::streams::{
    active_stream, close_stream, drop_slow_consumer, drop_subscription, send_to_stream,
    stream_closed, stream_offered, stream_takes, subscription_active, with_subscription_state,
    StreamingView,
};
use crate::world::{is_terminal_state, terminal_state, ResourcesView, RunsView, World, WorldView};

verus! {

/// What a stream says of a run that has reached an outcome.
pub open spec fn terminal_item(state: RunStateView) -> Option<StreamItemView> {
    match state {
        RunStateView::Completed(output) => Some(
            StreamItemView::Finished(StreamTerminalView::Completed(output)),
        ),
        RunStateView::Failed(error) => Some(
            StreamItemView::Finished(StreamTerminalView::Failed(error)),
        ),
        RunStateView::Cancelled => Some(StreamItemView::Finished(StreamTerminalView::Cancelled)),
        _ => None,
    }
}

/// One subscription receives the outcome of its run; one whose stream does not take it is
/// dropped.
pub open spec fn deliver_terminal(
    s: StreamingView,
    subscription: Entity,
    item: StreamItemView,
) -> StreamingView {
    if !subscription_active(s.world, subscription) {
        s
    } else {
        let stream = s.world.runs.sinks[subscription];
        let next = if stream_takes(s.streams, stream) {
            StreamingView {
                world: with_subscription_state(s.world, subscription, SubscriptionState::Finished),
                streams: stream_offered(s.streams, stream, item),
            }
        } else {
            drop_subscription(s, subscription)
        };
        StreamingView { world: next.world.progressed(), ..next }
    }
}

/// The world with a note of whether the outcome of a run was published.
pub open spec fn with_publication(w: WorldView, run: Entity, published: bool) -> WorldView {
    WorldView {
        runs: RunsView {
            published: if published {
                w.runs.published.insert(run, true)
            } else {
                w.runs.published.remove(run)
            },
            ..w.runs
        },
        ..w
    }
}

/// The state after the outcome of one run was published, if it has one that is new. An outcome is
/// published once, to the subscriptions that the run then has.
pub open spec fn publish_step(s: StreamingView, run: Entity) -> StreamingView {
    if !s.world.runs.states.contains_key(run) {
        s
    } else {
        match terminal_item(s.world.runs.states[run]) {
            Some(item) => if s.world.runs.published.contains_key(run) {
                s
            } else {
                sources_of(s.world.runs.subscription_of, run).fold_left(
                    StreamingView { world: with_publication(s.world, run, true), ..s },
                    |s: StreamingView, e: Entity| deliver_terminal(s, e, item),
                )
            },
            None => StreamingView { world: with_publication(s.world, run, false), ..s },
        }
    }
}

/// The state after all outcomes were published.
pub open spec fn publish_all(s: StreamingView) -> StreamingView {
    entities_of(s.world.runs.states.dom()).fold_left(
        s,
        |s: StreamingView, e: Entity| publish_step(s, e),
    )
}

/// Number of the entities that satisfy a predicate.
pub open spec fn count_where(ids: Seq<Entity>, p: spec_fn(Entity) -> bool) -> nat
    decreases ids.len(),
{
    if ids.len() == 0 {
        0
    } else {
        count_where(ids.drop_last(), p) + if p(ids.last()) {
            1nat
        } else {
            0nat
        }
    }
}

/// Number of the runs with a record whose state satisfies a predicate.
pub open spec fn count_runs(w: WorldView, p: spec_fn(RunStateView) -> bool) -> nat {
    count_where(
        entities_of(w.runs.states.dom()),
        |e: Entity| w.runs.records.contains_key(e) && p(w.runs.states[e]),
    )
}

/// Number of the operations whose phase satisfies a predicate.
pub open spec fn count_operations(w: WorldView, p: spec_fn(OperationPhaseView) -> bool) -> nat {
    count_where(
        entities_of(w.operations.states.dom()),
        |e: Entity| p(w.operations.states[e].phase),
    )
}

/// The metrics of a world.
pub open spec fn world_metrics(w: WorldView) -> RuntimeMetrics {
    RuntimeMetrics {
        active_runs: count_runs(w, |s: RunStateView| !terminal_state(s)) as usize,
        completed_runs: count_runs(w, |s: RunStateView| s is Completed) as usize,
        failed_runs: count_runs(w, |s: RunStateView| s is Failed) as usize,
        cancelled_runs: count_runs(w, |s: RunStateView| s is Cancelled) as usize,
        in_flight_operations: count_operations(w, |p: OperationPhaseView| p is InFlight) as usize,
        prepared_operations: count_operations(w, |p: OperationPhaseView| p is Prepared) as usize,
        settled_operations: count_operations(w, |p: OperationPhaseView| p is Settled) as usize,
        retired_tools: count_where(
            entities_of(w.domain.tools.dom()),
            |e: Entity| w.domain.tools[e].retired || w.domain.retired.contains_key(e),
        ) as usize,
        dropped_subscribers: count_where(
            entities_of(w.runs.subscriptions.dom()),
            |e: Entity| w.runs.subscriptions[e] == SubscriptionState::DroppedSlowConsumer,
        ) as usize,
        unobserved_terminal_runs: count_where(
            entities_of(w.runs.states.dom()),
            |e: Entity|
                w.runs.records.contains_key(e) && !w.runs.records[e].observed && terminal_state(
                    w.runs.states[e],
                ),
        ) as usize,
    }
}

/// The world with its metrics brought up to date.
pub open spec fn measured(w: WorldView) -> WorldView {
    WorldView {
        resources: ResourcesView { metrics: world_metrics(w), ..w.resources },
        ..w
    }
}

/// Whether an operation is still to be carried out.
pub open spec fn operation_pending(w: WorldView, e: Entity) -> bool {
    w.operations.states.contains_key(e) && (w.operations.states[e].phase is Prepared
        || w.operations.states[e].phase is InFlight)
}

/// Whether a run is over and observed, with nothing left to do for it.
pub open spec fn cleanup_due(w: WorldView, run: Entity) -> bool {
    &&& w.runs.states.contains_key(run)
    &&& w.runs.records.contains_key(run)
    &&& w.runs.records[run].observed
    &&& terminal_state(w.runs.states[run])
    &&& !any_pending(w, sources_of(w.operations.operation_of, run))
    &&& !any_active(w, sources_of(w.runs.subscription_of, run))
}

/// Whether one of the operations is still to be carried out.
pub open spec fn any_pending(w: WorldView, ids: Seq<Entity>) -> bool {
    exists|i: int| 0 <= i < ids.len() && operation_pending(w, #[trigger] ids[i])
}

/// Whether one of the subscriptions is active.
pub open spec fn any_active(w: WorldView, ids: Seq<Entity>) -> bool {
    exists|i: int|
        0 <= i < ids.len() && w.runs.subscriptions.contains_key(#[trigger] ids[i])
            && w.runs.subscriptions[ids[i]] == SubscriptionState::Active
}

/// The world without the entities.
pub open spec fn without_all(w: WorldView, ids: Seq<Entity>) -> WorldView {
    ids.fold_left(w, |w: WorldView, e: Entity| w.without(e))
}

/// The state without a subscription; its stream is closed.
pub open spec fn without_subscription(s: StreamingView, e: Entity) -> StreamingView {
    StreamingView {
        world: s.world.without(e),
        streams: if s.world.runs.sinks.contains_key(e) {
            stream_closed(s.streams, s.world.runs.sinks[e])
        } else {
            s.streams
        },
    }
}

/// The state after one run was cleaned up, if that is due: it is gone with its operations, turns,
/// batches and subscriptions.
pub open spec fn cleanup_step(s: StreamingView, run: Entity) -> StreamingView {
    if !cleanup_due(s.world, run) {
        s
    } else {
        let w = s.world;
        let rest = without_all(
            without_all(
                without_all(w, sources_of(w.operations.operation_of, run)),
                sources_of(w.runs.turn_of, run),
            ),
            sources_of(w.operations.batch_of, run),
        );
        let unsubscribed = sources_of(w.runs.subscription_of, run).fold_left(
            StreamingView { world: rest, ..s },
            |s: StreamingView, e: Entity| without_subscription(s, e),
        );
        StreamingView {
            world: unsubscribed.world.without(run).progressed(),
            ..unsubscribed
        }
    }
}

/// The state after every due run was cleaned up.
pub open spec fn cleanup_all(s: StreamingView) -> StreamingView {
    entities_of(s.world.runs.states.dom()).fold_left(
        s,
        |s: StreamingView, e: Entity| cleanup_step(s, e),
    )
}

/// Whether a tool is among the decisions.
pub open spec fn decides_on(decisions: Seq<ToolDecisionView>, tool: Entity) -> bool {
    exists|i: int| 0 <= i < decisions.len() && (#[trigger] decisions[i]).tool_entity == tool
}

/// Whether the input of some operation holds a decision for a tool.
pub open spec fn tool_retained(w: WorldView, tool: Entity) -> bool {
    ||| exists|e: Entity|
        w.operations.model_inputs.contains_key(e) && decides_on(
            (#[trigger] w.operations.model_inputs[e]).tools,
            tool,
        )
    ||| exists|e: Entity|
        w.operations.tool_inputs.contains_key(e) && (
        #[trigger] w.operations.tool_inputs[e]).decision.tool_entity == tool
}

/// The world after one retired tool was cleaned up, if no operation holds a decision for it.
pub open spec fn retire_step(w: WorldView, tool: Entity) -> WorldView {
    if w.domain.retired.contains_key(tool) && w.domain.tools.contains_key(tool) && !tool_retained(
        w,
        tool,
    ) {
        without_all(w, sources_of(w.domain.grant_for_tool, tool)).without(tool).progressed()
    } else {
        w
    }
}

/// The world after every retired tool that no operation needs was cleaned up.
pub open spec fn retire_all(w: WorldView) -> WorldView {
    entities_of(w.domain.retired.dom()).fold_left(w, |w: WorldView, e: Entity| retire_step(w, e))
}

fn describe_terminal(state: &RunState) -> (r: Option<StreamItem>)
    ensures
        r.deep_view() == terminal_item(state@),
{
    match state {
        RunState::Completed(output) => Some(
            StreamItem::Finished(StreamTerminal::Completed(output.clone())),
        ),
        RunState::Failed(error) => Some(
            StreamItem::Finished(StreamTerminal::Failed(error.clone())),
        ),
        RunState::Cancelled => Some(StreamItem::Finished(StreamTerminal::Cancelled)),
        _ => None,
    }
}

fn finish_subscription(
    world: &mut World,
    streams: &mut Vec<Queue<StreamItem>>,
    subscription: Entity,
    item: &StreamItem,
)
    ensures
        (StreamingView { world: final(world)@, streams: final(streams).deep_view() })
            == deliver_terminal(
            (StreamingView { world: old(world)@, streams: old(streams).deep_view() }),
            subscription,
            item@,
        ),
{
    if let Some(stream) = active_stream(world, subscription) {
        let ghost before = streams.deep_view();
        if send_to_stream(streams, stream, item.clone()) {
            world.runs.subscriptions.insert(subscription, SubscriptionState::Finished);
        } else {
            assert(streams.deep_view() =~= before);
            drop_slow_consumer(world, streams, subscription, stream);
        }
        world.mark_progress();
    }
}

/// Publishes the outcome of one run, if it has one.
pub fn publish_run(world: &mut World, streams: &mut Vec<Queue<StreamItem>>, run: Entity)
    ensures
        (StreamingView { world: final(world)@, streams: final(streams).deep_view() })
            == publish_step(
            (StreamingView { world: old(world)@, streams: old(streams).deep_view() }),
            run,
        ),
{
    broadcast use crate::fold::group_fold;

    let item = match world.runs.states.get(run) {
        Some(state) => match describe_terminal(state) {
            Some(item) => item,
            None => {
                let _ = world.runs.published.remove(run);
                return;
            },
        },
        None => {
            return;
        },
    };
    if world.runs.published.contains(run) {
        return;
    }
    world.runs.published.insert(run, true);
    let ids = world.runs.subscription_of.sources(run);
    let ghost view = item@;
    let ghost start = StreamingView { world: world@, streams: streams.deep_view() };
    let ghost step = |s: StreamingView, e: Entity| deliver_terminal(s, e, view);
    let mut i: usize = 0;
    while i < ids.len()
        invariant
            i <= ids@.len(),
            view == item@,
            step == (|s: StreamingView, e: Entity| deliver_terminal(s, e, view)),
            (StreamingView { world: world@, streams: streams.deep_view() }) == ids@.take(
                i as int,
            ).fold_left(start, step),
        decreases ids@.len() - i,
    {
        proof {
            lemma_fold_next(ids@, i as int, start, step);
        }
        finish_subscription(world, streams, ids[i], &item);
        i = i + 1;
    }
}

/// Publishes all outcomes.
pub fn publish_terminal_streams(world: &mut World, streams: &mut Vec<Queue<StreamItem>>)
    ensures
        (StreamingView { world: final(world)@, streams: final(streams).deep_view() })
            == publish_all(
            (StreamingView { world: old(world)@, streams: old(streams).deep_view() }),
        ),
{
    broadcast use crate::fold::group_fold;

    let ids = world.runs.states.entities();
    let ghost start = StreamingView { world: world@, streams: streams.deep_view() };
    let ghost step = |s: StreamingView, e: Entity| publish_step(s, e);
    let mut i: usize = 0;
    while i < ids.len()
        invariant
            i <= ids@.len(),
            step == (|s: StreamingView, e: Entity| publish_step(s, e)),
            (StreamingView { world: world@, streams: streams.deep_view() }) == ids@.take(
                i as int,
            ).fold_left(start, step),
        decreases ids@.len() - i,
    {
        proof {
            lemma_fold_next(ids@, i as int, start, step);
        }
        publish_run(world, streams, ids[i]);
        i = i + 1;
    }
}

/// No more entities satisfy a predicate than there are.
proof fn lemma_count_bound(ids: Seq<Entity>, p: spec_fn(Entity) -> bool)
    ensures
        count_where(ids, p) <= ids.len(),
    decreases ids.len(),
{
    if ids.len() > 0 {
        lemma_count_bound(ids.drop_last(), p);
    }
}

fn count<F: Fn(Entity) -> bool>(
    ids: &Vec<Entity>,
    test: F,
    Ghost(p): Ghost<spec_fn(Entity) -> bool>,
) -> (r: usize)
    requires
        forall|i: int| 0 <= i < ids@.len() ==> test.requires((#[trigger] ids@[i],)),
        forall|e: Entity, r: bool| test.ensures((e,), r) ==> r == p(e),
    ensures
        r == count_where(ids@, p),
{
    let mut r: usize = 0;
    let mut i: usize = 0;
    assert(ids@.take(0) =~= Seq::empty());
    while i < ids.len()
        invariant
            i <= ids@.len(),
            forall|i: int| 0 <= i < ids@.len() ==> test.requires((#[trigger] ids@[i],)),
            forall|e: Entity, r: bool| test.ensures((e,), r) ==> r == p(e),
            r == count_where(ids@.take(i as int), p),
        decreases ids@.len() - i,
    {
        proof {
            assert(ids@.take(i + 1).drop_last() =~= ids@.take(i as int));
            assert(ids@.take(i + 1).last() == ids@[i as int]);
            lemma_count_bound(ids@.take(i as int), p);
        }
        if test(ids[i]) {
            r = r + 1;
        }
        i = i + 1;
    }
    assert(ids@.take(i as int) =~= ids@);
    r
}

fn count_runs_where<F: Fn(&RunState) -> bool>(
    world: &World,
    ids: &Vec<Entity>,
    test: F,
    Ghost(p): Ghost<spec_fn(RunStateView) -> bool>,
) -> (r: usize)
    requires
        ids@ == entities_of(world@.runs.states.dom()),
        forall|s: &RunState| #[trigger] test.requires((s,)),
        forall|s: &RunState, r: bool| test.ensures((s,), r) ==> r == p(s@),
        forall|i: int| 0 <= i < ids@.len() ==> world@.runs.states.contains_key(#[trigger] ids@[i]),
    ensures
        r == count_runs(world@, p),
{
    let state_fits = |e: Entity| -> (r: bool)
        requires
            world@.runs.states.contains_key(e),
        ensures
            r == (world@.runs.records.contains_key(e) && p(world@.runs.states[e])),
    {
        match world.runs.states.get(e) {
            Some(state) => world.runs.records.contains(e) && test(state),
            None => false,
        }
    };
    count(
        ids,
        state_fits,
        Ghost(
            |e: Entity| world@.runs.records.contains_key(e) && p(world@.runs.states[e]),
        ),
    )
}

fn count_operations_where<F: Fn(&OperationPhase) -> bool>(
    world: &World,
    ids: &Vec<Entity>,
    test: F,
    Ghost(p): Ghost<spec_fn(OperationPhaseView) -> bool>,
) -> (r: usize)
    requires
        ids@ == entities_of(world@.operations.states.dom()),
        forall|s: &OperationPhase| #[trigger] test.requires((s,)),
        forall|s: &OperationPhase, r: bool| test.ensures((s,), r) ==> r == p(s@),
        forall|i: int|
            0 <= i < ids@.len() ==> world@.operations.states.contains_key(#[trigger] ids@[i]),
    ensures
        r == count_operations(world@, p),
{
    let phase_fits = |e: Entity| -> (r: bool)
        requires
            world@.operations.states.contains_key(e),
        ensures
            r == p(world@.operations.states[e].phase),
    {
        match world.operations.states.get(e) {
            Some(state) => test(&state.phase),
            None => false,
        }
    };
    count(ids, phase_fits, Ghost(|e: Entity| p(world@.operations.states[e].phase)))
}

/// Brings the metrics up to date.
pub fn update_runtime_metrics(world: &mut World)
    ensures
        final(world)@ == measured(old(world)@),
{
    let metrics = measure(world);
    world.resources.metrics = metrics;
}

fn measure(world: &World) -> (r: RuntimeMetrics)
    ensures
        r == world_metrics(world@),
{
    let runs = world.runs.states.entities();
    let operations = world.operations.states.entities();
    let tools = world.domain.tools.entities();
    let subscriptions = world.runs.subscriptions.entities();
    let test = |s: &RunState| -> (r: bool)
        ensures
            r == !terminal_state(s@),
    {
        !is_terminal_state(s)
    };
    let active_runs: usize = count_runs_where(
        world,
        &runs,
        test,
        Ghost(|s: RunStateView| !terminal_state(s)),
    );
    let test = |s: &RunState| -> (r: bool)
        ensures
            r == (s@ is Completed),
    {
        matches!(s, RunState::Completed(_))
    };
    let completed_runs: usize = count_runs_where(
        world,
        &runs,
        test,
        Ghost(|s: RunStateView| s is Completed),
    );
    let test = |s: &RunState| -> (r: bool)
        ensures
            r == (s@ is Failed),
    {
        matches!(s, RunState::Failed(_))
    };
    let failed_runs: usize = count_runs_where(
        world,
        &runs,
        test,
        Ghost(|s: RunStateView| s is Failed),
    );
    let test = |s: &RunState| -> (r: bool)
        ensures
            r == (s@ is Cancelled),
    {
        matches!(s, RunState::Cancelled)
    };
    let cancelled_runs: usize = count_runs_where(
        world,
        &runs,
        test,
        Ghost(|s: RunStateView| s is Cancelled),
    );
    let test = |p: &OperationPhase| -> (r: bool)
        ensures
            r == (p@ is InFlight),
    {
        matches!(p, OperationPhase::InFlight)
    };
    let in_flight_operations: usize = count_operations_where(
        world,
        &operations,
        test,
        Ghost(|p: OperationPhaseView| p is InFlight),
    );
    let test = |p: &OperationPhase| -> (r: bool)
        ensures
            r == (p@ is Prepared),
    {
        matches!(p, OperationPhase::Prepared)
    };
    let prepared_operations: usize = count_operations_where(
        world,
        &operations,
        test,
        Ghost(|p: OperationPhaseView| p is Prepared),
    );
    let test = |p: &OperationPhase| -> (r: bool)
        ensures
            r == (p@ is Settled),
    {
        matches!(p, OperationPhase::Settled(_))
    };
    let settled_operations: usize = count_operations_where(
        world,
        &operations,
        test,
        Ghost(|p: OperationPhaseView| p is Settled),
    );
    let test = |e: Entity| -> (r: bool)
        requires
            world@.domain.tools.contains_key(e),
        ensures
            r == (world@.domain.tools[e].retired || world@.domain.retired.contains_key(e)),
    {
        match world.domain.tools.get(e) {
            Some(tool) => tool.retired || world.domain.retired.contains(e),
            None => false,
        }
    };
    let retired_tools: usize = count(
        &tools,
        test,
        Ghost(
            |e: Entity|
                world@.domain.tools[e].retired || world@.domain.retired.contains_key(e),
        ),
    );
    let test = |e: Entity| -> (r: bool)
        requires
            world@.runs.subscriptions.contains_key(e),
        ensures
            r == (world@.runs.subscriptions[e] == SubscriptionState::DroppedSlowConsumer),
    {
        match world.runs.subscriptions.get(e) {
            Some(state) => matches!(state, SubscriptionState::DroppedSlowConsumer),
            None => false,
        }
    };
    let dropped_subscribers: usize = count(
        &subscriptions,
        test,
        Ghost(
            |e: Entity| world@.runs.subscriptions[e] == SubscriptionState::DroppedSlowConsumer,
        ),
    );
    let test = |e: Entity| -> (r: bool)
        requires
            world@.runs.states.contains_key(e),
        ensures
            r == (world@.runs.records.contains_key(e) && !world@.runs.records[e].observed
                && terminal_state(world@.runs.states[e])),
    {
        match (world.runs.states.get(e), world.runs.records.get(e)) {
            (Some(state), Some(record)) => !record.observed && is_terminal_state(state),
            _ => false,
        }
    };
    let unobserved_terminal_runs: usize = count(
        &runs,
        test,
        Ghost(
            |e: Entity|
                world@.runs.records.contains_key(e) && !world@.runs.records[e].observed
                    && terminal_state(world@.runs.states[e]),
        ),
    );
    RuntimeMetrics {
        active_runs,
        completed_runs,
        failed_runs,
        cancelled_runs,
        in_flight_operations,
        prepared_operations,
        settled_operations,
        retired_tools,
        dropped_subscribers,
        unobserved_terminal_runs,
    }
}

fn despawn_all(world: &mut World, ids: &Vec<Entity>)
    ensures
        final(world)@ == without_all(old(world)@, ids@),
{
    broadcast use crate::fold::group_fold;

    let ghost start = world@;
    let ghost step = |w: WorldView, e: Entity| w.without(e);
    let mut i: usize = 0;
    while i < ids.len()
        invariant
            i <= ids@.len(),
            step == (|w: WorldView, e: Entity| w.without(e)),
            world@ == ids@.take(i as int).fold_left(start, step),
        decreases ids@.len() - i,
    {
        proof {
            lemma_fold_next(ids@, i as int, start, step);
        }
        world.despawn(ids[i]);
        i = i + 1;
    }
}

fn has_pending(world: &World, ids: &Vec<Entity>) -> (r: bool)
    ensures
        r == any_pending(world@, ids@),
{
    let mut i: usize = 0;
    while i < ids.len()
        invariant
            i <= ids@.len(),
            forall|k: int| 0 <= k < i ==> !operation_pending(world@, #[trigger] ids@[k]),
        decreases ids@.len() - i,
    {
        let pending = match world.operations.states.get(ids[i]) {
            Some(state) => matches!(
                state.phase,
                OperationPhase::Prepared | OperationPhase::InFlight
            ),
            None => false,
        };
        if pending {
            assert(operation_pending(world@, ids@[i as int]));
            return true;
        }
        i = i + 1;
    }
    false
}

fn has_active(world: &World, ids: &Vec<Entity>) -> (r: bool)
    ensures
        r == any_active(world@, ids@),
{
    let mut i: usize = 0;
    while i < ids.len()
        invariant
            i <= ids@.len(),
            forall|k: int|
                0 <= k < i ==> !(world@.runs.subscriptions.contains_key(#[trigger] ids@[k])
                    && world@.runs.subscriptions[ids@[k]] == SubscriptionState::Active),
        decreases ids@.len() - i,
    {
        let active = match world.runs.subscriptions.get(ids[i]) {
            Some(state) => matches!(state, SubscriptionState::Active),
            None => false,
        };
        if active {
            assert(world@.runs.subscriptions.contains_key(ids@[i as int]));
            return true;
        }
        i = i + 1;
    }
    false
}

fn unsubscribe(world: &mut World, streams: &mut Vec<Queue<StreamItem>>, ids: &Vec<Entity>)
    ensures
        (StreamingView { world: final(world)@, streams: final(streams).deep_view() })
            == ids@.fold_left(
            (StreamingView { world: old(world)@, streams: old(streams).deep_view() }),
            |s: StreamingView, e: Entity| without_subscription(s, e),
        ),
{
    broadcast use crate::fold::group_fold;

    let ghost start = StreamingView { world: world@, streams: streams.deep_view() };
    let ghost step = |s: StreamingView, e: Entity| without_subscription(s, e);
    let mut i: usize = 0;
    while i < ids.len()
        invariant
            i <= ids@.len(),
            step == (|s: StreamingView, e: Entity| without_subscription(s, e)),
            (StreamingView { world: world@, streams: streams.deep_view() }) == ids@.take(
                i as int,
            ).fold_left(start, step),
        decreases ids@.len() - i,
    {
        proof {
            lemma_fold_next(ids@, i as int, start, step);
        }
        if let Some(stream) = world.runs.sinks.get(ids[i]) {
            close_stream(streams, *stream);
        }
        world.despawn(ids[i]);
        i = i + 1;
    }
}

/// Cleans one run up, if that is due.
pub fn cleanup_run(world: &mut World, streams: &mut Vec<Queue<StreamItem>>, run: Entity)
    ensures
        (StreamingView { world: final(world)@, streams: final(streams).deep_view() })
            == cleanup_step(
            (StreamingView { world: old(world)@, streams: old(streams).deep_view() }),
            run,
        ),
{
    match (world.runs.states.get(run), world.runs.records.get(run)) {
        (Some(state), Some(record)) => {
            if !record.observed || !is_terminal_state(state) {
                return;
            }
        },
        _ => {
            return;
        },
    }
    let operations = world.operations.operation_of.sources(run);
    if has_pending(world, &operations) {
        return;
    }
    let subscriptions = world.runs.subscription_of.sources(run);
    if has_active(world, &subscriptions) {
        return;
    }
    let turns = world.runs.turn_of.sources(run);
    let batches = world.operations.batch_of.sources(run);
    despawn_all(world, &operations);
    despawn_all(world, &turns);
    despawn_all(world, &batches);
    unsubscribe(world, streams, &subscriptions);
    world.despawn(run);
    world.mark_progress();
}

/// Cleans every due run up.
pub fn cleanup_observed_runs(world: &mut World, streams: &mut Vec<Queue<StreamItem>>)
    ensures
        (StreamingView { world: final(world)@, streams: final(streams).deep_view() })
            == cleanup_all(
            (StreamingView { world: old(world)@, streams: old(streams).deep_view() }),
        ),
{
    broadcast use crate::fold::group_fold;

    let ids = world.runs.states.entities();
    let ghost start = StreamingView { world: world@, streams: streams.deep_view() };
    let ghost step = |s: StreamingView, e: Entity| cleanup_step(s, e);
    let mut i: usize = 0;
    while i < ids.len()
        invariant
            i <= ids@.len(),
            step == (|s: StreamingView, e: Entity| cleanup_step(s, e)),
            (StreamingView { world: world@, streams: streams.deep_view() }) == ids@.take(
                i as int,
            ).fold_left(start, step),
        decreases ids@.len() - i,
    {
        proof {
            lemma_fold_next(ids@, i as int, start, step);
        }
        cleanup_run(world, streams, ids[i]);
        i = i + 1;
    }
}

fn decision_for(decisions: &Vec<ToolDecision>, tool: Entity) -> (r: bool)
    ensures
        r == decides_on(decisions.deep_view(), tool),
{
    let ghost views = decisions.deep_view();
    let mut i: usize = 0;
    while i < decisions.len()
        invariant
            i <= decisions@.len(),
            views == decisions.deep_view(),
            forall|k: int| 0 <= k < i ==> (#[trigger] views[k]).tool_entity != tool,
        decreases decisions@.len() - i,
    {
        assert(views[i as int] == decisions@[i as int]@);
        if decisions[i].tool_entity == tool {
            return true;
        }
        i = i + 1;
    }
    false
}

fn is_retained(world: &World, tool: Entity) -> (r: bool)
    ensures
        r == tool_retained(world@, tool),
{
    let models = world.operations.model_inputs.entities();
    let mut i: usize = 0;
    while i < models.len()
        invariant
            i <= models@.len(),
            models@.to_set() == world@.operations.model_inputs.dom(),
            forall|k: int|
                0 <= k < i ==> !decides_on(
                    world@.operations.model_inputs[#[trigger] models@[k]].tools,
                    tool,
                ),
        decreases models@.len() - i,
    {
        if let Some(input) = world.operations.model_inputs.get(models[i]) {
            if decision_for(&input.tools, tool) {
                return true;
            }
        } else {
            assert(models@.to_set().contains(models@[i as int]));
        }
        i = i + 1;
    }
    let calls = world.operations.tool_inputs.entities();
    let mut j: usize = 0;
    while j < calls.len()
        invariant
            j <= calls@.len(),
            calls@.to_set() == world@.operations.tool_inputs.dom(),
            forall|k: int|
                0 <= k < j ==> world@.operations.tool_inputs[#[trigger] calls@[k]].decision.tool_entity
                    != tool,
        decreases calls@.len() - j,
    {
        if let Some(input) = world.operations.tool_inputs.get(calls[j]) {
            if input.decision.tool_entity == tool {
                return true;
            }
        } else {
            assert(calls@.to_set().contains(calls@[j as int]));
        }
        j = j + 1;
    }
    proof {
        if tool_retained(world@, tool) {
            if exists|e: Entity|
                world@.operations.model_inputs.contains_key(e) && decides_on(
                    (#[trigger] world@.operations.model_inputs[e]).tools,
                    tool,
                ) {
                let e = choose|e: Entity|
                    world@.operations.model_inputs.contains_key(e) && decides_on(
                        (#[trigger] world@.operations.model_inputs[e]).tools,
                        tool,
                    );
                assert(models@.to_set().contains(e));
                let k = choose|k: int| 0 <= k < models@.len() && models@[k] == e;
                assert(models@[k] == e);
            } else {
                let e = choose|e: Entity|
                    world@.operations.tool_inputs.contains_key(e) && (
                    #[trigger] world@.operations.tool_inputs[e]).decision.tool_entity == tool;
                assert(calls@.to_set().contains(e));
                let k = choose|k: int| 0 <= k < calls@.len() && calls@[k] == e;
                assert(calls@[k] == e);
            }
        }
    }
    false
}

/// Cleans up every retired tool that no operation needs.
pub fn cleanup_retired_tools(world: &mut World)
    ensures
        final(world)@ == retire_all(old(world)@),
{
    broadcast use crate::fold::group_fold;

    let ids = world.domain.retired.entities();
    let ghost start = world@;
    let ghost step = |w: WorldView, e: Entity| retire_step(w, e);
    let mut i: usize = 0;
    while i < ids.len()
        invariant
            i <= ids@.len(),
            step == (|w: WorldView, e: Entity| retire_step(w, e)),
            world@ == ids@.take(i as int).fold_left(start, step),
        decreases ids@.len() - i,
    {
        proof {
            lemma_fold_next(ids@, i as int, start, step);
        }
        let tool = ids[i];
        if world.domain.retired.contains(tool) && world.domain.tools.contains(tool)
            && !is_retained(world, tool) {
            let grants = world.domain.grant_for_tool.sources(tool);
            despawn_all(world, &grants);
            world.despawn(tool);
            world.mark_progress();
        }
        i = i + 1;
    }
}

} // verus!
