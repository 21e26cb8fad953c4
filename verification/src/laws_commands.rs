//! What becomes of commands, acknowledgements and outcomes.

use vstd::prelude::*;

use crate::column::{
    entities_of, lemma_entities, lemma_sources, lemma_sources_ascending, sources_of,
    strictly_ascending, Entity,
};
use crate::effect::{
    CanonicalErrorView, EffectIngressView, OperationKind, OperationPhaseView, TranscriptEntryView,
};
use crate::fold::first_picked;
use crate::ingest::{
    if_named, ingest_all, ingest_command, observe_step, run_with_id, ticked, with_messages,
};
use crate::publish::{
    cleanup_step, count_where, deliver_terminal, publish_step, retire_step, tool_retained,
    world_metrics,
};
use crate::laws_effects::listens;
use crate::run::{
    PromptPayloadView, RunStateView, RuntimeCommandView, StreamItemView, StreamTerminalView,
    SubscriptionState,
};
use crate::streams::StreamingView;
use crate::world::WorldView;

verus! {

/// A prompt starts a run under its id. Its record holds what was asked, with the history before
/// the prompt and nothing done yet. With an agent the run is queued for it, in its tenant; without
/// one it has failed. A subscriber hears of the run. (The entities must have numbers left.)
pub proof fn law_prompts_start_runs(
    w: WorldView,
    start: u64,
    agent: Entity,
    run_id: Seq<char>,
    prompt: PromptPayloadView,
    history: Seq<serde_json::Value>,
    output_schema: Option<serde_json::Value>,
    max_model_calls: Option<u32>,
    conversation: Option<Seq<char>>,
    subscriber: Option<u64>,
)
    requires
        w.next + 2 <= u64::MAX,
    ensures
        ({
            let t = ingest_command(
                w,
                start,
                RuntimeCommandView::Prompt {
                    agent,
                    run_id,
                    prompt,
                    history,
                    output_schema,
                    max_model_calls,
                    conversation,
                    subscriber,
                },
            );
            let run = w.fresh();
            let record = t.runs.records[run];
            let known = w.tenants.contains_key(agent) && w.domain.agents.contains_key(agent);
            &&& t.stable_ids[run] == run_id
            &&& t.runs.records.contains_key(run)
            &&& t.runs.states.contains_key(run)
            &&& known ==> {
                &&& t.runs.states[run] is Queued
                &&& t.runs.run_of.contains_key(run)
                &&& t.runs.run_of[run] == agent
                &&& t.tenants[run] == w.tenants[agent]
            }
            &&& !known ==> t.runs.states[run] == RunStateView::Failed(
                CanonicalErrorView::StaleEntity("agent"@),
            )
            &&& record.prompt == prompt.message
            &&& record.prompt_text == prompt.text
            &&& record.output_schema == output_schema
            &&& record.max_model_calls == max_model_calls
            &&& record.conversation == conversation
            &&& record.transcript.len() == history.len() + 1
            &&& forall|i: int|
                0 <= i < history.len() ==> record.transcript[i] == TranscriptEntryView::Message(
                    #[trigger] history[i],
                )
            &&& prompt.plain_text && prompt.text is Some ==> record.transcript.last()
                == TranscriptEntryView::User(prompt.text->0)
            &&& !prompt.plain_text ==> record.transcript.last() == TranscriptEntryView::UserMessage(
                prompt.message,
            )
            &&& record.usage.input_tokens == 0
            &&& record.usage.output_tokens == 0
            &&& record.next_turn == 0
            &&& !record.observed
            &&& !record.memory_loaded
            &&& !record.retrieval_loaded
            &&& record.memory_store is None
            &&& record.retrieved_documents.len() == 0
            &&& record.pending_output is None
            &&& subscriber is Some ==> exists|e: Entity|
                {
                    &&& #[trigger] t.runs.subscription_of.contains_key(e)
                    &&& t.runs.subscription_of[e] == run
                    &&& t.runs.subscriptions[e] == SubscriptionState::Active
                    &&& t.runs.sinks[e] == subscriber->0
                }
            &&& subscriber is None ==> t.runs.subscription_of == w.runs.subscription_of
        }),
{
    let t = ingest_command(
        w,
        start,
        RuntimeCommandView::Prompt {
            agent,
            run_id,
            prompt,
            history,
            output_schema,
            max_model_calls,
            conversation,
            subscriber,
        },
    );
    if subscriber is Some {
        let e = Entity((w.next + 1) as u64);
        assert(t.runs.subscription_of.contains_key(e));
    }
}

/// A refresh of a known source asks for its tools in the next generation, for which the source then
/// waits; the refresh that it waited for before gives way, unless it is over. An unknown source
/// changes nothing.
pub proof fn law_refreshes_ask_the_source_anew(w: WorldView, start: u64, source: Entity)
    ensures
        ({
            let t = ingest_command(w, start, RuntimeCommandView::RefreshDiscovery { source });
            let known = w.stable_ids.contains_key(source) && w.tenants.contains_key(source)
                && w.domain.sources.contains_key(source);
            let old = w.domain.sources[source];
            let new = t.domain.sources[source];
            let asked = new.state->Refreshing_operation;
            &&& !known ==> t == w
            &&& known ==> {
                &&& old.generation < u64::MAX ==> new.generation == old.generation + 1
                &&& new.kind == old.kind
                &&& new.state is Refreshing
                &&& asked == w.fresh()
                &&& t.operations.kinds[asked] == OperationKind::Discovery
                &&& t.operations.states[asked].phase is Prepared
                &&& t.operations.states[asked].generation == new.generation
                &&& t.operations.discovery_operation_of[asked] == source
                &&& t.operations.discovery_inputs[asked].source == source
                &&& t.operations.discovery_inputs[asked].source_id == w.stable_ids[source]
                &&& t.operations.discovery_inputs[asked].kind == old.kind
                &&& t.operations.discovery_inputs[asked].generation == new.generation
                &&& t.operations.discovery_inputs[asked].tenant == w.tenants[source]
                &&& t.domain.tools == w.domain.tools
            }
            &&& known && old.state is Refreshing && old.state->Refreshing_operation.0 < start
                && start <= w.next && w.operations.discovery_inputs.contains_key(
                old.state->Refreshing_operation,
            ) && w.operations.states.contains_key(old.state->Refreshing_operation) && (
            w.operations.states[old.state->Refreshing_operation].phase is Prepared
                || w.operations.states[old.state->Refreshing_operation].phase is InFlight)
                ==> t.operations.states[old.state->Refreshing_operation].phase is Superseded
        }),
{
}

/// Commands take effect one after the other, in the order in which they came.
pub proof fn law_commands_take_effect_in_order(
    w: WorldView,
    commands: Seq<RuntimeCommandView>,
    command: RuntimeCommandView,
)
    ensures
        ingest_all(w, Seq::empty()) == w,
        ingest_all(w, commands.push(command)) == ingest_command(
            ingest_all(w, commands),
            w.next,
            command,
        ),
{
    reveal_with_fuel(Seq::fold_left, 2);
    assert(commands.push(command).drop_last() =~= commands);
}

/// Messages of executors wait behind those that wait already, in the order in which they came; a
/// tick of the clock is one more, as far as it counts.
pub proof fn law_messages_wait_in_order(w: WorldView, messages: Seq<EffectIngressView>)
    ensures
        with_messages(w, messages).resources.messages == w.resources.messages + messages,
        with_messages(w, messages).runs == w.runs,
        with_messages(w, messages).operations == w.operations,
        w.resources.tick < u64::MAX ==> ticked(w).resources.tick == w.resources.tick + 1,
    decreases messages.len(),
{
    reveal_with_fuel(Seq::fold_left, 2);
    if messages.len() > 0 {
        law_messages_wait_in_order(w, messages.drop_last());
        assert((w.resources.messages + messages.drop_last()).push(messages.last())
            =~= w.resources.messages + messages);
    } else {
        assert(w.resources.messages + messages =~= w.resources.messages);
    }
}

proof fn lemma_first_picked<A, B>(
    items: Seq<A>,
    pick: spec_fn(A) -> Option<B>,
    from: int,
    k: int,
)
    requires
        0 <= from <= k < items.len(),
        pick(items[k]) is Some,
        forall|j: int| 0 <= j < k ==> pick(#[trigger] items[j]) is None,
    ensures
        first_picked(items, pick, from) == pick(items[k]),
    decreases k - from,
{
    if from < k {
        assert(pick(items[from]) is None);
        lemma_first_picked(items, pick, from + 1, k);
    }
}

/// An acknowledgement marks the run with its id as observed, and changes nothing else of it.
pub proof fn law_acknowledged_runs_are_observed(w: WorldView, run: Entity, id: Seq<char>)
    requires
        w.runs.records.dom().finite(),
        w.runs.records.contains_key(run),
        w.stable_ids.contains_key(run),
        w.stable_ids[run] == id,
        forall|e: Entity|
            w.runs.records.contains_key(e) && #[trigger] w.stable_ids.contains_key(e)
                && w.stable_ids[e] == id ==> e == run,
    ensures
        ({
            let t = observe_step(w, id);
            &&& t.runs.records[run].observed
            &&& t.runs.records[run].transcript == w.runs.records[run].transcript
            &&& t.runs.records[run].usage == w.runs.records[run].usage
            &&& t.runs.states == w.runs.states
            &&& forall|e: Entity| e != run ==> #[trigger] t.runs.records[e] == w.runs.records[e]
        }),
{
    let ids = entities_of(w.runs.records.dom());
    lemma_entities(w.runs.records.dom());
    assert(ids.to_set().contains(run));
    let k = choose|k: int| 0 <= k < ids.len() && ids[k] == run;
    let pick = |e: Entity| if_named(w, id, e);
    assert forall|j: int| 0 <= j < k implies pick(#[trigger] ids[j]) is None by {
        assert(ids.to_set().contains(ids[j]));
        assert(w.runs.records.contains_key(ids[j]));
        assert(ids[j].0 < ids[k].0);
    }
    lemma_first_picked(ids, pick, 0, k);
    assert(run_with_id(w, id) == Some(run));
}

/// What a stream says of an outcome.
pub open spec fn says(item: StreamItemView, state: RunStateView) -> bool {
    match state {
        RunStateView::Completed(output) => item == StreamItemView::Finished(
            StreamTerminalView::Completed(output),
        ),
        RunStateView::Failed(error) => item == StreamItemView::Finished(
            StreamTerminalView::Failed(error),
        ),
        RunStateView::Cancelled => item == StreamItemView::Finished(StreamTerminalView::Cancelled),
        _ => false,
    }
}

proof fn lemma_terminal_delivery(
    s: StreamingView,
    ids: Seq<Entity>,
    item: StreamItemView,
    subscription: Entity,
    run: Entity,
    stream: u64,
)
    requires
        listens(s, subscription, run, stream),
        strictly_ascending(ids),
    ensures
        ({
            let t = ids.fold_left(s, |s: StreamingView, e: Entity| deliver_terminal(s, e, item));
            let before = s.streams[stream as int];
            let after = t.streams[stream as int];
            &&& t.streams.len() == s.streams.len()
            &&& t.world.runs.states == s.world.runs.states
            &&& t.world.runs.published == s.world.runs.published
            &&& forall|other: Entity|
                #![trigger t.world.runs.sinks[other]]
                #![trigger t.world.runs.sinks.contains_key(other)]
                t.world.runs.sinks.contains_key(other) ==> s.world.runs.sinks.contains_key(other)
                    && t.world.runs.sinks[other] == s.world.runs.sinks[other]
            &&& t.world.runs.subscriptions.contains_key(subscription)
            &&& if !ids.contains(subscription) {
                &&& after == before
                &&& t.world.runs.sinks.contains_key(subscription)
                &&& t.world.runs.subscriptions[subscription] == SubscriptionState::Active
            } else if before.receiving && before.items.len() < before.capacity {
                &&& after.items == before.items.push(item)
                &&& t.world.runs.subscriptions[subscription] == SubscriptionState::Finished
            } else {
                &&& after.items == before.items
                &&& !after.sending
                &&& t.world.runs.subscriptions[subscription]
                    == SubscriptionState::DroppedSlowConsumer
            }
        }),
    decreases ids.len(),
{
    reveal_with_fuel(Seq::fold_left, 2);
    if ids.len() > 0 {
        let front = ids.drop_last();
        let last = ids.last();
        lemma_terminal_delivery(s, front, item, subscription, run, stream);
        assert(ids.contains(subscription) <==> front.contains(subscription) || last
            == subscription) by {
            if ids.contains(subscription) && last != subscription {
                let k = choose|k: int| 0 <= k < ids.len() && ids[k] == subscription;
                assert(front[k] == subscription);
            }
            if front.contains(subscription) {
                let k = choose|k: int| 0 <= k < front.len() && front[k] == subscription;
                assert(ids[k] == subscription);
            }
            assert(ids[ids.len() - 1] == last);
        }
        if front.contains(subscription) {
            let k = choose|k: int| 0 <= k < front.len() && front[k] == subscription;
            assert(ids[k].0 < ids[ids.len() - 1].0);
        }
    }
}

/// The outcome of a run reaches each subscription of the run once, behind what waits in its stream;
/// the subscription is then over. One whose stream has no room is dropped. An outcome that was
/// published is not published again, and a run without an outcome publishes nothing.
pub proof fn law_outcomes_reach_every_subscription(
    s: StreamingView,
    subscription: Entity,
    run: Entity,
    stream: u64,
)
    requires
        s.world.runs.subscription_of.dom().finite(),
        s.world.runs.states.contains_key(run),
        listens(s, subscription, run, stream),
    ensures
        ({
            let t = publish_step(s, run);
            let state = s.world.runs.states[run];
            let over = state is Completed || state is Failed || state is Cancelled;
            let before = s.streams[stream as int];
            let after = t.streams[stream as int];
            &&& !over || s.world.runs.published.contains_key(run) ==> t.streams == s.streams
            &&& over && !s.world.runs.published.contains_key(run) ==> {
                &&& t.world.runs.published.contains_key(run)
                &&& if before.receiving && before.items.len() < before.capacity {
                    &&& after.items.len() == before.items.len() + 1
                    &&& after.items.drop_last() == before.items
                    &&& says(after.items.last(), state)
                    &&& t.world.runs.subscriptions[subscription] == SubscriptionState::Finished
                } else {
                    &&& after.items == before.items
                    &&& !after.sending
                    &&& t.world.runs.subscriptions[subscription]
                        == SubscriptionState::DroppedSlowConsumer
                }
            }
        }),
{
    let state = s.world.runs.states[run];
    if let Some(item) = crate::publish::terminal_item(state) {
        let marked = StreamingView {
            world: crate::publish::with_publication(s.world, run, true),
            ..s
        };
        let ids = sources_of(s.world.runs.subscription_of, run);
        lemma_sources(s.world.runs.subscription_of, run, subscription);
        lemma_sources_ascending(s.world.runs.subscription_of, run);
        lemma_terminal_delivery(marked, ids, item, subscription, run, stream);
        assert(s.streams[stream as int].items.push(item).drop_last()
            =~= s.streams[stream as int].items);
    }
}

/// A count of entities is the number of those that satisfy what is counted.
proof fn lemma_count(members: Set<Entity>, ids: Seq<Entity>, p: spec_fn(Entity) -> bool)
    requires
        strictly_ascending(ids),
        ids.to_set() == members,
    ensures
        count_where(ids, p) == members.filter(p).len(),
        members.filter(p).finite(),
    decreases ids.len(),
{
    if ids.len() == 0 {
        assert(members.filter(p) =~= Set::empty()) by {
            assert forall|e: Entity| !members.filter(p).contains(e) by {
                if members.contains(e) {
                    assert(ids.to_set().contains(e));
                }
            }
        }
    } else {
        let front = ids.drop_last();
        let last = ids.last();
        let rest = front.to_set();
        lemma_count(rest, front, p);
        assert(!rest.contains(last)) by {
            if rest.contains(last) {
                let k = choose|k: int| 0 <= k < front.len() && front[k] == last;
                assert(ids[k].0 < ids[ids.len() - 1].0);
            }
        }
        assert forall|e: Entity| members.contains(e) <==> rest.contains(e) || e == last by {
            if members.contains(e) && e != last {
                assert(ids.to_set().contains(e));
                let k = choose|k: int| 0 <= k < ids.len() && ids[k] == e;
                assert(front[k] == e);
            }
            if rest.contains(e) {
                let k = choose|k: int| 0 <= k < front.len() && front[k] == e;
                assert(ids[k] == e);
                assert(ids.to_set().contains(e));
            }
            assert(ids[ids.len() - 1] == last);
            assert(ids.to_set().contains(last));
        }
        if p(last) {
            assert(members.filter(p) =~= rest.filter(p).insert(last));
        } else {
            assert(members.filter(p) =~= rest.filter(p));
        }
    }
}

/// Number of the runs with a record that are in a state.
pub open spec fn runs_in(w: WorldView, state: spec_fn(RunStateView) -> bool) -> nat {
    w.runs.states.dom().filter(
        |e: Entity| w.runs.records.contains_key(e) && state(w.runs.states[e]),
    ).len()
}

/// Number of the operations that are in a phase.
pub open spec fn operations_in(w: WorldView, phase: spec_fn(OperationPhaseView) -> bool) -> nat {
    w.operations.states.dom().filter(|e: Entity| phase(w.operations.states[e].phase)).len()
}

/// The metrics count the runs by their state and the operations by their phase, and the runs that
/// are over but not acknowledged. (The counts must fit.)
pub proof fn law_metrics_count_runs_and_operations(w: WorldView)
    requires
        w.runs.states.dom().finite(),
        w.operations.states.dom().finite(),
        w.runs.states.dom().len() <= usize::MAX,
        w.operations.states.dom().len() <= usize::MAX,
    ensures
        ({
            let m = world_metrics(w);
            &&& m.completed_runs == runs_in(w, |s: RunStateView| s is Completed)
            &&& m.failed_runs == runs_in(w, |s: RunStateView| s is Failed)
            &&& m.cancelled_runs == runs_in(w, |s: RunStateView| s is Cancelled)
            &&& m.active_runs == runs_in(
                w,
                |s: RunStateView|
                    s is Queued || s is WaitingModel || s is WaitingTools || s is WaitingStore,
            )
            &&& m.prepared_operations == operations_in(w, |p: OperationPhaseView| p is Prepared)
            &&& m.in_flight_operations == operations_in(w, |p: OperationPhaseView| p is InFlight)
            &&& m.settled_operations == operations_in(w, |p: OperationPhaseView| p is Settled)
            &&& m.unobserved_terminal_runs == w.runs.states.dom().filter(
                |e: Entity|
                    w.runs.records.contains_key(e) && !w.runs.records[e].observed && (
                    w.runs.states[e] is Completed || w.runs.states[e] is Failed
                        || w.runs.states[e] is Cancelled),
            ).len()
        }),
{
    lemma_entities(w.runs.states.dom());
    lemma_entities(w.operations.states.dom());
    assert forall|state: spec_fn(RunStateView) -> bool| #[trigger]
        crate::publish::count_runs(w, state) == runs_in(w, state) && runs_in(w, state)
            <= usize::MAX by {
        let p = |e: Entity| w.runs.records.contains_key(e) && state(w.runs.states[e]);
        lemma_count(w.runs.states.dom(), entities_of(w.runs.states.dom()), p);
        vstd::set_lib::lemma_len_subset(w.runs.states.dom().filter(p), w.runs.states.dom());
    }
    assert forall|phase: spec_fn(OperationPhaseView) -> bool| #[trigger]
        crate::publish::count_operations(w, phase) == operations_in(w, phase) && operations_in(
            w,
            phase,
        ) <= usize::MAX by {
        let p = |e: Entity| phase(w.operations.states[e].phase);
        lemma_count(w.operations.states.dom(), entities_of(w.operations.states.dom()), p);
        vstd::set_lib::lemma_len_subset(
            w.operations.states.dom().filter(p),
            w.operations.states.dom(),
        );
    }
    let active = |s: RunStateView| !crate::world::terminal_state(s);
    let waiting = |s: RunStateView|
        s is Queued || s is WaitingModel || s is WaitingTools || s is WaitingStore;
    assert(active =~= waiting);
    let unseen = |e: Entity|
        w.runs.records.contains_key(e) && !w.runs.records[e].observed
            && crate::world::terminal_state(w.runs.states[e]);
    lemma_count(w.runs.states.dom(), entities_of(w.runs.states.dom()), unseen);
    vstd::set_lib::lemma_len_subset(w.runs.states.dom().filter(unseen), w.runs.states.dom());
    assert(w.runs.states.dom().filter(unseen) =~= w.runs.states.dom().filter(
        |e: Entity|
            w.runs.records.contains_key(e) && !w.runs.records[e].observed && (w.runs.states[e]
                is Completed || w.runs.states[e] is Failed || w.runs.states[e] is Cancelled),
    ));
}

/// Whether a run is over and acknowledged, and nothing is left to do for it or to say of it.
pub open spec fn may_be_removed(w: WorldView, run: Entity) -> bool {
    &&& w.operations.operation_of.dom().finite()
    &&& w.runs.subscription_of.dom().finite()
    &&& w.runs.states.contains_key(run)
    &&& w.runs.states[run] is Completed || w.runs.states[run] is Failed || w.runs.states[run]
        is Cancelled
    &&& w.runs.records.contains_key(run)
    &&& w.runs.records[run].observed
    &&& forall|e: Entity| #[trigger]
        w.operations.operation_of.contains_key(e) && w.operations.operation_of[e] == run ==> !(
        w.operations.states.contains_key(e) && (w.operations.states[e].phase is Prepared
            || w.operations.states[e].phase is InFlight))
    &&& forall|e: Entity| #[trigger]
        w.runs.subscription_of.contains_key(e) && w.runs.subscription_of[e] == run ==> !(
        w.runs.subscriptions.contains_key(e) && w.runs.subscriptions[e]
            == SubscriptionState::Active)
}

/// A run is removed exactly where it is over and acknowledged, none of its operations is still to
/// be carried out, and none of its subscriptions is active.
pub proof fn law_acknowledged_runs_are_removed(s: StreamingView, run: Entity)
    requires
        s.world.operations.operation_of.dom().finite(),
        s.world.runs.subscription_of.dom().finite(),
    ensures
        may_be_removed(s.world, run) ==> {
            let t = cleanup_step(s, run);
            &&& !t.world.runs.states.contains_key(run)
            &&& !t.world.runs.records.contains_key(run)
            &&& !t.world.stable_ids.contains_key(run)
            &&& !t.world.tenants.contains_key(run)
        },
        !may_be_removed(s.world, run) ==> cleanup_step(s, run) == s,
{
    let w = s.world;
    let operations = sources_of(w.operations.operation_of, run);
    let subscriptions = sources_of(w.runs.subscription_of, run);
    assert forall|e: Entity| #[trigger]
        w.operations.operation_of.contains_key(e) && w.operations.operation_of[e]
            == run implies operations.contains(e) by {
        lemma_sources(w.operations.operation_of, run, e);
    }
    assert forall|i: int| 0 <= i < operations.len() implies w.operations.operation_of.contains_key(
        #[trigger] operations[i],
    ) && w.operations.operation_of[operations[i]] == run by {
        assert(operations.contains(operations[i]));
        lemma_sources(w.operations.operation_of, run, operations[i]);
    }
    assert forall|e: Entity| #[trigger]
        w.runs.subscription_of.contains_key(e) && w.runs.subscription_of[e]
            == run implies subscriptions.contains(e) by {
        lemma_sources(w.runs.subscription_of, run, e);
    }
    assert forall|i: int| 0 <= i < subscriptions.len() implies w.runs.subscription_of.contains_key(
        #[trigger] subscriptions[i],
    ) && w.runs.subscription_of[subscriptions[i]] == run by {
        assert(subscriptions.contains(subscriptions[i]));
        lemma_sources(w.runs.subscription_of, run, subscriptions[i]);
    }
    if may_be_removed(w, run) {
        assert(!crate::publish::any_pending(w, operations));
        assert(!crate::publish::any_active(w, subscriptions));
    } else if crate::publish::cleanup_due(w, run) {
        assert forall|e: Entity| #[trigger]
            w.operations.operation_of.contains_key(e) && w.operations.operation_of[e]
                == run implies !(w.operations.states.contains_key(e) && (w.operations.states[e].phase
            is Prepared || w.operations.states[e].phase is InFlight)) by {
            let i = choose|i: int| 0 <= i < operations.len() && operations[i] == e;
            assert(!crate::publish::operation_pending(w, operations[i]));
        }
        assert forall|e: Entity| #[trigger]
            w.runs.subscription_of.contains_key(e) && w.runs.subscription_of[e] == run implies !(
        w.runs.subscriptions.contains_key(e) && w.runs.subscriptions[e]
            == SubscriptionState::Active) by {
            let i = choose|i: int| 0 <= i < subscriptions.len() && subscriptions[i] == e;
            assert(subscriptions[i] == e);
        }
    }
}

/// A retired tool is removed exactly where no operation was decided with it: neither one that
/// offers it to a model nor one that calls it.
pub proof fn law_retired_tools_stay_while_they_are_needed(w: WorldView, tool: Entity)
    requires
        w.domain.retired.contains_key(tool),
        w.domain.tools.contains_key(tool),
    ensures
        ({
            let t = retire_step(w, tool);
            let offered = exists|e: Entity, i: int|
                w.operations.model_inputs.contains_key(e) && 0 <= i
                    < w.operations.model_inputs[e].tools.len() && (
                #[trigger] w.operations.model_inputs[e].tools[i]).tool_entity == tool;
            let called = exists|e: Entity|
                w.operations.tool_inputs.contains_key(e) && (
                #[trigger] w.operations.tool_inputs[e]).decision.tool_entity == tool;
            &&& offered || called ==> t == w
            &&& !offered && !called ==> !t.domain.tools.contains_key(tool)
                && !t.stable_ids.contains_key(tool)
        }),
{
    let offered = exists|e: Entity, i: int|
        w.operations.model_inputs.contains_key(e) && 0 <= i
            < w.operations.model_inputs[e].tools.len() && (
        #[trigger] w.operations.model_inputs[e].tools[i]).tool_entity == tool;
    if offered {
        let (e, i) = choose|e: Entity, i: int|
            w.operations.model_inputs.contains_key(e) && 0 <= i
                < w.operations.model_inputs[e].tools.len() && (
            #[trigger] w.operations.model_inputs[e].tools[i]).tool_entity == tool;
        assert(crate::publish::decides_on(w.operations.model_inputs[e].tools, tool));
    }
    if tool_retained(w, tool) && !offered {
        if exists|e: Entity|
            w.operations.model_inputs.contains_key(e) && crate::publish::decides_on(
                (#[trigger] w.operations.model_inputs[e]).tools,
                tool,
            ) {
            let e = choose|e: Entity|
                w.operations.model_inputs.contains_key(e) && crate::publish::decides_on(
                    (#[trigger] w.operations.model_inputs[e]).tools,
                    tool,
                );
            let i = choose|i: int|
                0 <= i < w.operations.model_inputs[e].tools.len() && (
                #[trigger] w.operations.model_inputs[e].tools[i]).tool_entity == tool;
            assert(w.operations.model_inputs[e].tools[i].tool_entity == tool);
        }
    }
}

/// The metrics count the tools that are retired and the subscriptions that could not keep pace.
/// (The counts must fit.)
pub proof fn law_metrics_count_tools_and_subscriptions(w: WorldView)
    requires
        w.domain.tools.dom().finite(),
        w.runs.subscriptions.dom().finite(),
        w.domain.tools.dom().len() <= usize::MAX,
        w.runs.subscriptions.dom().len() <= usize::MAX,
    ensures
        world_metrics(w).retired_tools == w.domain.tools.dom().filter(
            |e: Entity| w.domain.tools[e].retired || w.domain.retired.contains_key(e),
        ).len(),
        world_metrics(w).dropped_subscribers == w.runs.subscriptions.dom().filter(
            |e: Entity| w.runs.subscriptions[e] == SubscriptionState::DroppedSlowConsumer,
        ).len(),
{
    let retired = |e: Entity| w.domain.tools[e].retired || w.domain.retired.contains_key(e);
    let dropped = |e: Entity| w.runs.subscriptions[e] == SubscriptionState::DroppedSlowConsumer;
    lemma_entities(w.domain.tools.dom());
    lemma_entities(w.runs.subscriptions.dom());
    lemma_count(w.domain.tools.dom(), entities_of(w.domain.tools.dom()), retired);
    lemma_count(w.runs.subscriptions.dom(), entities_of(w.runs.subscriptions.dom()), dropped);
    vstd::set_lib::lemma_len_subset(w.domain.tools.dom().filter(retired), w.domain.tools.dom());
    vstd::set_lib::lemma_len_subset(
        w.runs.subscriptions.dom().filter(dropped),
        w.runs.subscriptions.dom(),
    );
}

} // verus!
