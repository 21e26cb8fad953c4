//! Ingestion of commands, observations and effect messages.

use vstd::prelude::*;

use crate::column::{entities_of, Entity};
use crate::effect::{
    CanonicalError, CanonicalErrorView, DiscoveryEffectInput, DiscoveryEffectInputView,
    EffectIngress, EffectIngressView, OperationPhase, OperationPhaseView, TranscriptEntry,
    TranscriptEntryView, Usage,
};
use crate::fold::{first_picked, lemma_fold_next};
use crate::identity::StableId;
use crate::queue::Queue;
use crate::run::{
    DiscoverySourceView, DiscoveryState, DiscoveryStateView, PromptPayload, PromptPayloadView,
    RunRecord, RunRecordView, RunState, RunStateView, RuntimeCommand, RuntimeCommandView,
};
use crate::world::{DomainView, ResourcesView, World, WorldView};

verus! {

/// The transcript entry of a prompt: its text, or the whole message where it holds more.
pub open spec fn prompt_entry(prompt: PromptPayloadView) -> TranscriptEntryView {
    if prompt.plain_text {
        TranscriptEntryView::User(
            match prompt.text {
                Some(text) => text,
                None => Seq::empty(),
            },
        )
    } else {
        TranscriptEntryView::UserMessage(prompt.message)
    }
}

/// The record of a run that starts with a prompt.
pub open spec fn initial_record(
    prompt: PromptPayloadView,
    history: Seq<serde_json::Value>,
    output_schema: Option<serde_json::Value>,
    max_model_calls: Option<u32>,
    conversation: Option<Seq<char>>,
) -> RunRecordView {
    RunRecordView {
        prompt: prompt.message,
        prompt_text: prompt.text,
        output_schema,
        max_model_calls,
        transcript: Seq::new(
            history.len(),
            |i: int| TranscriptEntryView::Message(history[i]),
        ).push(prompt_entry(prompt)),
        observed: false,
        usage: Usage { input_tokens: 0, output_tokens: 0 },
        next_turn: 0,
        conversation,
        memory_loaded: false,
        memory_store: None,
        retrieval_loaded: false,
        retrieval_store: None,
        retrieved_documents: Seq::empty(),
        pending_output: None,
    }
}

/// Whether an entity is an agent that a run can belong to.
pub open spec fn accepts_runs(w: WorldView, agent: Entity) -> bool {
    w.tenants.contains_key(agent) && w.domain.agents.contains_key(agent)
}

/// The world after a prompt started a run. Without an agent the run has failed from the start.
pub open spec fn ingest_prompt(
    w: WorldView,
    agent: Entity,
    run_id: Seq<char>,
    record: RunRecordView,
    subscriber: Option<u64>,
) -> WorldView {
    let run = w.fresh();
    let started = if accepts_runs(w, agent) {
        w.with_run(run_id, w.tenants[agent], agent, record)
    } else {
        w.with_orphan_run(
            run_id,
            RunStateView::Failed(CanonicalErrorView::StaleEntity("agent"@)),
            record,
        )
    };
    match subscriber {
        Some(stream) => started.with_subscription(run, stream),
        None => started,
    }.progressed()
}

/// The world after a cancellation was asked for: a run that is not over is cancelled.
pub open spec fn ingest_cancel(w: WorldView, run: Entity) -> WorldView {
    if w.stable_ids.contains_key(run) && w.runs.states.contains_key(run)
        && w.runs.records.contains_key(run) && !(w.runs.states[run] is Completed)
        && !(w.runs.states[run] is Failed) {
        w.with_run_state(run, RunStateView::Cancelled).progressed()
    } else {
        w
    }
}

/// Whether an operation can still be superseded: it stood before the current batch of commands
/// and has not ended.
pub open spec fn can_supersede(w: WorldView, batch_start: u64, operation: Entity) -> bool {
    &&& operation.0 < batch_start
    &&& w.operations.discovery_inputs.contains_key(operation)
    &&& w.operations.states.contains_key(operation)
    &&& !(w.operations.states[operation].phase is Settled)
    &&& !(w.operations.states[operation].phase is Cancelled)
    &&& !(w.operations.states[operation].phase is Superseded)
    &&& !(w.operations.states[operation].phase is ExtensionSettled)
}

/// The world in which the refresh that a source waits for gave way to a newer one.
pub open spec fn with_superseded(w: WorldView, batch_start: u64, source: Entity) -> WorldView {
    match w.domain.sources[source].state {
        DiscoveryStateView::Refreshing { operation } => if can_supersede(
            w,
            batch_start,
            operation,
        ) {
            w.with_phase(operation, OperationPhaseView::Superseded)
        } else {
            w
        },
        _ => w,
    }
}

/// Generation that follows the given one.
pub open spec fn next_generation(generation: u64) -> u64 {
    if generation == u64::MAX {
        u64::MAX
    } else {
        (generation + 1) as u64
    }
}

/// The world after a discovery refresh was asked for.
pub open spec fn ingest_refresh(w: WorldView, batch_start: u64, source: Entity) -> WorldView {
    if !(w.stable_ids.contains_key(source) && w.tenants.contains_key(source)
        && w.domain.sources.contains_key(source)) {
        w
    } else {
        let record = w.domain.sources[source];
        let generation = next_generation(record.generation);
        let operation = w.fresh();
        let asked = with_superseded(w, batch_start, source).with_discovery_operation(
            source,
            DiscoveryEffectInputView {
                source,
                source_id: w.stable_ids[source],
                kind: record.kind,
                generation,
                tenant: w.tenants[source],
            },
        );
        WorldView {
            domain: DomainView {
                sources: asked.domain.sources.insert(
                    source,
                    DiscoverySourceView {
                        generation,
                        state: DiscoveryStateView::Refreshing { operation },
                        ..record
                    },
                ),
                ..asked.domain
            },
            ..asked
        }.progressed()
    }
}

/// The world after one command of a batch.
pub open spec fn ingest_command(
    w: WorldView,
    batch_start: u64,
    command: RuntimeCommandView,
) -> WorldView {
    match command {
        RuntimeCommandView::Prompt {
            agent,
            run_id,
            prompt,
            history,
            output_schema,
            max_model_calls,
            conversation,
            subscriber,
        } => ingest_prompt(
            w,
            agent,
            run_id,
            initial_record(prompt, history, output_schema, max_model_calls, conversation),
            subscriber,
        ),
        RuntimeCommandView::Cancel { run } => ingest_cancel(w, run),
        RuntimeCommandView::RefreshDiscovery { source } => ingest_refresh(w, batch_start, source),
    }
}

/// The world after all waiting commands, in the order of their arrival.
pub open spec fn ingest_all(w: WorldView, commands: Seq<RuntimeCommandView>) -> WorldView {
    commands.fold_left(
        w,
        |x: WorldView, c: RuntimeCommandView| ingest_command(x, w.next, c),
    )
}

/// An entity, if it has the given id.
pub open spec fn if_named(w: WorldView, id: Seq<char>, e: Entity) -> Option<Entity> {
    if w.stable_ids.contains_key(e) && w.stable_ids[e] == id {
        Some(e)
    } else {
        None
    }
}

/// The first run with the given id.
pub open spec fn run_with_id(w: WorldView, id: Seq<char>) -> Option<Entity> {
    first_picked(entities_of(w.runs.records.dom()), |e: Entity| if_named(w, id, e), 0)
}

/// The world after the outcome of a run was acknowledged.
pub open spec fn observe_step(w: WorldView, id: Seq<char>) -> WorldView {
    match run_with_id(w, id) {
        Some(run) => if w.runs.records[run].observed {
            w
        } else {
            w.with_run_record(
                run,
                RunRecordView { observed: true, ..w.runs.records[run] },
            ).progressed()
        },
        None => w,
    }
}

/// The world after all waiting acknowledgements.
pub open spec fn observe_all(w: WorldView, ids: Seq<Seq<char>>) -> WorldView {
    ids.fold_left(w, |w: WorldView, id: Seq<char>| observe_step(w, id))
}

/// The world with one more message of the effect boundary.
pub open spec fn with_message(w: WorldView, message: EffectIngressView) -> WorldView {
    WorldView {
        resources: ResourcesView {
            messages: w.resources.messages.push(message),
            ..w.resources
        },
        ..w
    }.progressed()
}

/// The world with all waiting messages of the effect boundary.
pub open spec fn with_messages(w: WorldView, messages: Seq<EffectIngressView>) -> WorldView {
    messages.fold_left(w, |w: WorldView, m: EffectIngressView| with_message(w, m))
}

/// The world one tick later.
pub open spec fn ticked(w: WorldView) -> WorldView {
    WorldView {
        resources: ResourcesView {
            tick: if w.resources.tick == u64::MAX {
                u64::MAX
            } else {
                (w.resources.tick + 1) as u64
            },
            ..w.resources
        },
        ..w
    }
}

/// Starts the next tick.
pub fn advance_runtime_clock(world: &mut World)
    ensures
        final(world)@ == ticked(old(world)@),
{
    world.resources.tick = world.resources.tick.saturating_add(1);
}

/// The record of a run that starts with a prompt.
pub fn start_record(
    prompt: &PromptPayload,
    history: &Vec<serde_json::Value>,
    output_schema: &Option<serde_json::Value>,
    max_model_calls: Option<u32>,
    conversation: &Option<StableId>,
) -> (r: RunRecord)
    ensures
        r@ == initial_record(
            prompt@,
            history@,
            *output_schema,
            max_model_calls,
            conversation.deep_view(),
        ),
{
    let entry = if prompt.plain_text {
        TranscriptEntry::User(
            match &prompt.text {
                Some(text) => text.clone(),
                None => String::new(),
            },
        )
    } else {
        TranscriptEntry::UserMessage(prompt.message.clone())
    };
    let mut transcript: Vec<TranscriptEntry> = Vec::new();
    let mut i: usize = 0;
    while i < history.len()
        invariant
            i <= history@.len(),
            transcript@.len() == i,
            forall|k: int|
                0 <= k < i ==> (#[trigger] transcript@[k])@ == TranscriptEntryView::Message(
                    history@[k],
                ),
        decreases history@.len() - i,
    {
        transcript.push(TranscriptEntry::Message(history[i].clone()));
        i = i + 1;
    }
    transcript.push(entry);
    let conversation_id = match conversation {
        Some(id) => Some(id.clone()),
        None => None,
    };
    let record = RunRecord {
        prompt: prompt.message.clone(),
        prompt_text: prompt.text.clone(),
        output_schema: output_schema.clone(),
        max_model_calls,
        transcript,
        observed: false,
        usage: Usage { input_tokens: 0, output_tokens: 0 },
        next_turn: 0,
        conversation: conversation_id,
        memory_loaded: false,
        memory_store: None,
        retrieval_loaded: false,
        retrieval_store: None,
        retrieved_documents: Vec::new(),
        pending_output: None,
    };
    proof {
        let expected = initial_record(
            prompt@,
            history@,
            *output_schema,
            max_model_calls,
            conversation.deep_view(),
        );
        assert(record.transcript.deep_view() =~= expected.transcript);
        assert(record.retrieved_documents.deep_view() =~= Seq::empty());
        assert(record.prompt_text.deep_view() =~= prompt.text.deep_view());
    }
    record
}

fn start_run(
    world: &mut World,
    agent: Entity,
    run_id: StableId,
    record: RunRecord,
    subscriber: Option<u64>,
)
    ensures
        final(world)@ == ingest_prompt(old(world)@, agent, run_id@, record@, subscriber),
{
    let tenant = match world.tenants.get(agent) {
        Some(tenant) => if world.domain.agents.contains(agent) {
            Some(tenant.clone())
        } else {
            None
        },
        None => None,
    };
    let run = match tenant {
        Some(tenant) => world.spawn_run(run_id, tenant, agent, record),
        None => world.spawn_orphan_run(
            run_id,
            RunState::Failed(CanonicalError::StaleEntity("agent".to_owned())),
            record,
        ),
    };
    if let Some(stream) = subscriber {
        let _ = world.spawn_subscription(run, stream);
    }
    world.mark_progress();
}

fn cancel_run(world: &mut World, run: Entity)
    ensures
        final(world)@ == ingest_cancel(old(world)@, run),
{
    if !world.stable_ids.contains(run) || !world.runs.records.contains(run) {
        return;
    }
    let open = match world.runs.states.get(run) {
        Some(state) => !matches!(state, RunState::Completed(_) | RunState::Failed(_)),
        None => false,
    };
    if open {
        world.set_run_state(run, RunState::Cancelled);
        world.mark_progress();
    }
}

fn supersede(world: &mut World, batch_start: u64, operation: Entity)
    ensures
        final(world)@ == (if can_supersede(old(world)@, batch_start, operation) {
            old(world)@.with_phase(operation, OperationPhaseView::Superseded)
        } else {
            old(world)@
        }),
{
    if operation.0 >= batch_start || !world.operations.discovery_inputs.contains(operation) {
        return;
    }
    let open = match world.operations.states.get(operation) {
        Some(state) => matches!(state.phase, OperationPhase::Prepared | OperationPhase::InFlight),
        None => false,
    };
    if open {
        world.set_phase(operation, OperationPhase::Superseded);
    }
}

fn refresh(world: &mut World, batch_start: u64, source: Entity)
    ensures
        final(world)@ == ingest_refresh(old(world)@, batch_start, source),
{
    let mut record = match world.domain.sources.get(source) {
        Some(record) => record.clone(),
        None => {
            return;
        },
    };
    let tenant = match world.tenants.get(source) {
        Some(tenant) => tenant.clone(),
        None => {
            return;
        },
    };
    let source_id = match world.stable_ids.get(source) {
        Some(id) => id.clone(),
        None => {
            return;
        },
    };
    if let DiscoveryState::Refreshing { operation } = &record.state {
        supersede(world, batch_start, *operation);
    }
    let generation: u64 = record.generation.saturating_add(1);
    let operation = world.spawn_discovery_operation(
        source,
        DiscoveryEffectInput {
            source,
            source_id,
            kind: record.kind.clone(),
            generation,
            tenant,
        },
    );
    record.generation = generation;
    record.state = DiscoveryState::Refreshing { operation };
    world.domain.sources.insert(source, record);
    world.mark_progress();
}

/// Carries out all waiting commands.
pub fn ingest_commands(world: &mut World, commands: &mut Queue<RuntimeCommand>)
    ensures
        final(world)@ == ingest_all(old(world)@, old(commands)@.items),
        final(commands)@ == old(commands)@.drained(),
{
    broadcast use crate::fold::group_fold;

    let batch = commands.drain();
    let batch_start: u64 = world.next;
    let ghost views = batch.deep_view();
    let ghost start = world@;
    let ghost step = |w: WorldView, c: RuntimeCommandView| ingest_command(w, start.next, c);
    let mut i: usize = 0;
    while i < batch.len()
        invariant
            i <= batch@.len(),
            views == batch.deep_view(),
            batch_start == start.next,
            step == (|w: WorldView, c: RuntimeCommandView| ingest_command(w, start.next, c)),
            world@ == views.take(i as int).fold_left(start, step),
        decreases batch@.len() - i,
    {
        proof {
            lemma_fold_next(views, i as int, start, step);
            assert(views[i as int] == batch@[i as int]@);
        }
        match &batch[i] {
            RuntimeCommand::Prompt {
                agent,
                run_id,
                prompt,
                history,
                output_schema,
                max_model_calls,
                conversation,
                subscriber,
            } => {
                let record = start_record(
                    prompt,
                    history,
                    output_schema,
                    *max_model_calls,
                    conversation,
                );
                start_run(world, *agent, run_id.clone(), record, *subscriber);
            },
            RuntimeCommand::Cancel { run } => {
                cancel_run(world, *run);
            },
            RuntimeCommand::RefreshDiscovery { source } => {
                refresh(world, batch_start, *source);
            },
        }
        i = i + 1;
    }
}

fn find_run(world: &World, id: &StableId) -> (r: Option<Entity>)
    ensures
        r == run_with_id(world@, id@),
        r is Some ==> world@.runs.records.contains_key(r->0),
{
    let ids = world.runs.records.entities();
    let ghost pick = |e: Entity| if_named(world@, id@, e);
    let mut i: usize = 0;
    while i < ids.len()
        invariant
            i <= ids@.len(),
            ids@ == entities_of(world@.runs.records.dom()),
            forall|k: int| 0 <= k < ids@.len() ==> world@.runs.records.contains_key(#[trigger] ids@[k]),
            pick == (|e: Entity| if_named(world@, id@, e)),
            first_picked(ids@, pick, 0) == first_picked(ids@, pick, i as int),
        decreases ids@.len() - i,
    {
        if let Some(found) = world.stable_ids.get(ids[i]) {
            if found.same(id) {
                assert(world@.runs.records.contains_key(ids@[i as int]));
                return Some(ids[i]);
            }
        }
        i = i + 1;
    }
    None
}

/// Marks every acknowledged run as observed.
pub fn ingest_observations(world: &mut World, observations: &mut Vec<StableId>)
    ensures
        final(world)@ == observe_all(old(world)@, old(observations).deep_view()),
        final(observations)@ == Seq::<StableId>::empty(),
{
    broadcast use crate::fold::group_fold;

    let mut ids: Vec<StableId> = Vec::new();
    std::mem::swap(&mut ids, observations);
    let ghost views = ids.deep_view();
    let ghost start = world@;
    let ghost step = |w: WorldView, id: Seq<char>| observe_step(w, id);
    let mut i: usize = 0;
    while i < ids.len()
        invariant
            i <= ids@.len(),
            views == ids.deep_view(),
            step == (|w: WorldView, id: Seq<char>| observe_step(w, id)),
            world@ == views.take(i as int).fold_left(start, step),
        decreases ids@.len() - i,
    {
        proof {
            lemma_fold_next(views, i as int, start, step);
            assert(views[i as int] == ids@[i as int]@);
        }
        if let Some(run) = find_run(world, &ids[i]) {
            if let Some(known) = world.runs.records.get(run) {
                if !known.observed {
                    let mut record = known.clone();
                    record.observed = true;
                    world.set_run_record(run, record);
                    world.mark_progress();
                }
            }
        }
        i = i + 1;
    }
}

/// Takes over all waiting messages of the effect boundary.
pub fn ingest_completions(world: &mut World, ingress: &mut Queue<EffectIngress>)
    ensures
        final(world)@ == with_messages(old(world)@, old(ingress)@.items),
        final(ingress)@ == old(ingress)@.drained(),
{
    broadcast use crate::fold::group_fold;

    let batch = ingress.drain();
    let ghost views = batch.deep_view();
    let ghost start = world@;
    let ghost step = |w: WorldView, m: EffectIngressView| with_message(w, m);
    let mut i: usize = 0;
    while i < batch.len()
        invariant
            i <= batch@.len(),
            views == batch.deep_view(),
            step == (|w: WorldView, m: EffectIngressView| with_message(w, m)),
            world@ == views.take(i as int).fold_left(start, step),
        decreases batch@.len() - i,
    {
        proof {
            lemma_fold_next(views, i as int, start, step);
            assert(views[i as int] == batch@[i as int]@);
        }
        let ghost before = world.resources.messages.deep_view();
        world.resources.messages.push(batch[i].clone());
        assert(world.resources.messages.deep_view() =~= before.push(views[i as int]));
        world.mark_progress();
        i = i + 1;
    }
}

} // verus!
