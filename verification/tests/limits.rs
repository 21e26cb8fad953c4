//! Limits, refused requests and snapshots that are read back.

use rig_runtime::capability::{Agent, ModelCapability, StoreCapability};
use rig_runtime::column::Entity;
use rig_runtime::effect::{
    CanonicalError, EffectCompletion, EffectOutput, ModelEffectOutput, Usage,
};
use rig_runtime::identity::{StableId, TenantId};
use rig_runtime::message::{Message, UserContent};
use rig_runtime::persisted::{DomainSnapshot, PersistedAgent, PersistedModel};
use rig_runtime::run::{
    AgentHandle, DriveError, PersistenceError, PromptPayload, RunState, RuntimeConfig, SpawnError,
    StreamReceiveError, SubmitError,
};
use rig_runtime::runtime::Runtime;
use rig_runtime::transcript::prompt_payload;

fn id(value: &str) -> StableId {
    StableId::new(value.to_owned()).unwrap()
}

fn tenant(value: &str) -> TenantId {
    TenantId::new(value.to_owned()).unwrap()
}

fn prompt(text: &str) -> PromptPayload {
    let message = Message::User {
        content: vec![UserContent::Text(text.to_owned())],
    };
    prompt_payload(&message, Ok(serde_json::Value::Null)).unwrap()
}

fn model(revision: u64) -> ModelCapability {
    ModelCapability {
        provider: "fake".to_owned(),
        model: "test".to_owned(),
        revision,
        retired: false,
    }
}

fn with_agent(config: RuntimeConfig) -> (Runtime, AgentHandle) {
    let mut runtime = Runtime::new(config, 1).unwrap();
    let entity = runtime
        .spawn_model(id("model"), tenant("a"), model(1))
        .unwrap();
    let agent = runtime
        .spawn_agent(id("agent"), tenant("a"), Agent::default(), entity)
        .unwrap();
    (runtime, agent)
}

fn answer(text: &str) -> Result<EffectOutput, CanonicalError> {
    Ok(EffectOutput::Model(ModelEffectOutput {
        assistant_message: None,
        text: text.to_owned(),
        usage: Usage {
            input_tokens: 1,
            output_tokens: 2,
        },
        tool_calls: Vec::new(),
    }))
}

#[test]
fn driving_stops_at_the_progress_limit() {
    let (mut runtime, agent) = with_agent(RuntimeConfig {
        progress_limit: 1,
        ..RuntimeConfig::default()
    });
    runtime.handle().prompt(agent, prompt("hello")).unwrap();
    assert_eq!(
        runtime.run_until_stalled(),
        Err(DriveError::ProgressLimit(1))
    );
}

#[test]
fn driving_stops_where_nothing_is_left_to_do() {
    let (mut runtime, agent) = with_agent(RuntimeConfig::default());
    runtime.run_until_stalled().unwrap();
    assert_eq!(runtime.run_until_stalled(), Ok(1));
    runtime.handle().prompt(agent, prompt("hello")).unwrap();
    runtime.run_until_stalled().unwrap();
    assert_eq!(runtime.run_until_stalled(), Ok(1));
}

#[test]
fn a_full_effect_queue_keeps_work_for_later() {
    let (mut runtime, agent) = with_agent(RuntimeConfig {
        effect_capacity: 1,
        ..RuntimeConfig::default()
    });
    runtime.handle().prompt(agent, prompt("first")).unwrap();
    runtime.handle().prompt(agent, prompt("second")).unwrap();
    runtime.run_until_stalled().unwrap();
    let first = runtime.effects().try_recv().unwrap().unwrap();
    assert_eq!(runtime.effects().try_recv(), Ok(None));
    runtime.run_until_stalled().unwrap();
    let second = runtime.effects().try_recv().unwrap().unwrap();
    assert_ne!(first.operation, second.operation);
}

#[test]
fn a_closed_runtime_takes_no_commands() {
    let (mut runtime, agent) = with_agent(RuntimeConfig::default());
    let foreign = AgentHandle {
        runtime_id: 9,
        ..agent
    };
    assert_eq!(
        runtime.handle().prompt(foreign, prompt("hello")),
        Err(SubmitError::ForeignRuntime)
    );
    runtime.handle().commands.stop_receiving();
    assert_eq!(
        runtime.handle().prompt(agent, prompt("hello")),
        Err(SubmitError::Disconnected)
    );
}

#[test]
fn spawning_refuses_what_does_not_fit() {
    let (mut runtime, agent) = with_agent(RuntimeConfig::default());
    assert_eq!(
        runtime.spawn_model(id("agent"), tenant("a"), model(1)),
        Err(SpawnError::DuplicateStableId("agent".to_owned()))
    );
    let missing = Entity::placeholder();
    assert_eq!(
        runtime.spawn_agent(id("other"), tenant("a"), Agent::default(), missing),
        Err(SpawnError::StaleEntity(missing))
    );
    let store = runtime
        .spawn_store(
            id("store"),
            tenant("b"),
            StoreCapability {
                kind: "vector-search".to_owned(),
                revision: 1,
                retired: false,
            },
        )
        .unwrap();
    let grant = rig_runtime::capability::StoreGrant {
        order: 0,
        enabled: true,
    };
    assert_eq!(
        runtime.grant_store(id("grant"), tenant("a"), grant, agent, store),
        Err(SpawnError::TenantMismatch)
    );
    let foreign = AgentHandle {
        runtime_id: 9,
        ..agent
    };
    assert_eq!(
        runtime.grant_store(id("grant"), tenant("a"), grant, foreign, store),
        Err(SpawnError::ForeignRuntime)
    );
}

#[test]
fn outcomes_are_final() {
    let (mut runtime, agent) = with_agent(RuntimeConfig::default());
    let pending = runtime.handle().prompt(agent, prompt("hello")).unwrap();
    runtime.run_until_stalled().unwrap();
    let request = runtime.effects().try_recv().unwrap().unwrap();
    for text in ["first", "second"] {
        runtime
            .effects()
            .try_send(EffectCompletion {
                operation: request.operation,
                generation: request.generation,
                result: answer(text),
            })
            .unwrap();
        runtime.run_until_stalled().unwrap();
    }
    let run = runtime.resolve_run(&pending).unwrap();
    runtime.handle().cancel(run).unwrap();
    runtime.run_until_stalled().unwrap();
    let Some(RunState::Completed(output)) = runtime.observe_run(run).unwrap() else {
        panic!("expected a completed run");
    };
    assert_eq!(output.text, "first");
    assert_eq!(
        output.usage,
        Usage {
            input_tokens: 1,
            output_tokens: 2
        }
    );
}

#[test]
fn an_ended_stream_gives_nothing_more() {
    let (mut runtime, agent) = with_agent(RuntimeConfig::default());
    let (_, mut stream) = runtime
        .handle()
        .prompt_stream(agent, prompt("hello"))
        .unwrap();
    runtime.run_until_stalled().unwrap();
    let request = runtime.effects().try_recv().unwrap().unwrap();
    runtime
        .effects()
        .try_send(EffectCompletion {
            operation: request.operation,
            generation: request.generation,
            result: answer("done"),
        })
        .unwrap();
    runtime.run_until_stalled().unwrap();
    assert!(stream.try_recv(&mut runtime.handle).unwrap().is_some());
    runtime.run_until_stalled().unwrap();
    assert_eq!(
        stream.try_recv(&mut runtime.handle),
        Err(StreamReceiveError::Disconnected)
    );
}

fn persisted_model(name: &str, owner: &str) -> PersistedModel {
    PersistedModel {
        id: id(name),
        tenant: tenant(owner),
        capability: model(1),
    }
}

fn persisted_agent(name: &str, model: &str) -> PersistedAgent {
    PersistedAgent {
        id: id(name),
        tenant: tenant("a"),
        agent: Agent::default(),
        model_id: id(model),
        output_requirement: None,
        retrieval_requirement: None,
    }
}

#[test]
fn restored_snapshots_read_back_in_order() {
    let mut runtime = Runtime::new(RuntimeConfig::default(), 1).unwrap();
    let snapshot = |names: [&str; 2]| DomainSnapshot {
        models: names
            .iter()
            .map(|name| persisted_model(name, "a"))
            .collect(),
        agents: vec![persisted_agent("agent", "m-1")],
        ..DomainSnapshot::default()
    };
    runtime.restore(snapshot(["m-2", "m-1"])).unwrap();
    assert_eq!(runtime.snapshot().unwrap(), snapshot(["m-1", "m-2"]));
    assert_eq!(
        runtime.restore(snapshot(["m-3", "m-1"])).unwrap_err(),
        PersistenceError::ConflictingStableId("m-1".to_owned())
    );
    assert_eq!(runtime.snapshot().unwrap(), snapshot(["m-1", "m-2"]));
}

#[test]
fn snapshots_of_mixed_tenants_are_refused() {
    let mut runtime = Runtime::new(RuntimeConfig::default(), 1).unwrap();
    let snapshot = DomainSnapshot {
        models: vec![persisted_model("model", "b")],
        agents: vec![persisted_agent("agent", "model")],
        ..DomainSnapshot::default()
    };
    assert_eq!(
        runtime.restore(snapshot).unwrap_err(),
        PersistenceError::TenantMismatch("model".to_owned())
    );
}

#[test]
fn snapshots_of_broken_relations_are_refused() {
    let (mut runtime, agent) = with_agent(RuntimeConfig::default());
    let missing = Entity::placeholder();
    runtime
        .world_mut()
        .domain
        .uses_model
        .insert(agent.entity(), missing);
    assert_eq!(
        runtime.snapshot().unwrap_err(),
        PersistenceError::StaleRelationship(missing)
    );
}

#[test]
fn restored_entities_are_those_of_the_snapshot() {
    let mut runtime = Runtime::new(RuntimeConfig::default(), 1).unwrap();
    runtime.spawn_model(id("x"), tenant("a"), model(1)).unwrap();
    let snapshot = DomainSnapshot {
        models: vec![persisted_model("m", "a")],
        agents: vec![persisted_agent("agent", "x")],
        ..DomainSnapshot::default()
    };
    let restored = runtime.restore(snapshot).unwrap();
    assert_eq!(restored.get(&id("x")), None);
    let made = restored.get(&id("m")).unwrap();
    assert_eq!(runtime.world().stable_ids.get(made), Some(&id("m")));
    assert!(restored.get(&id("agent")).is_some());
    let nothing = runtime.restore(DomainSnapshot::default()).unwrap();
    assert_eq!(nothing.get(&id("m")), None);
}

#[test]
fn cancelling_twice_is_cancelling_once() {
    let (mut runtime, agent) = with_agent(RuntimeConfig::default());
    let pending = runtime.handle().prompt(agent, prompt("hello")).unwrap();
    runtime.run_until_stalled().unwrap();
    let run = runtime.resolve_run(&pending).unwrap();
    for _ in 0..2 {
        runtime.handle().cancel(run).unwrap();
    }
    runtime.handle().prompt(agent, prompt("another")).unwrap();
    runtime.run_until_stalled().unwrap();
    assert_eq!(runtime.observe_run(run), Ok(Some(RunState::Cancelled)));
}

#[test]
fn outcomes_are_published_once() {
    let (mut runtime, agent) = with_agent(RuntimeConfig::default());
    let (pending, stream) = runtime
        .handle()
        .prompt_stream(agent, prompt("hello"))
        .unwrap();
    runtime.run_until_stalled().unwrap();
    let request = runtime.effects().try_recv().unwrap().unwrap();
    runtime
        .effects()
        .try_send(EffectCompletion {
            operation: request.operation,
            generation: request.generation,
            result: answer("done"),
        })
        .unwrap();
    runtime.run_until_stalled().unwrap();
    assert_eq!(runtime.handle.streams[0].items.len(), 1);
    let run = runtime.resolve_run(&pending).unwrap().entity();
    let world = runtime.world_mut();
    let late = world.reserve();
    world.runs.subscription_of.insert(late, run);
    world.runs.sinks.insert(late, stream.stream);
    world
        .runs
        .subscriptions
        .insert(late, rig_runtime::run::SubscriptionState::Active);
    runtime.update();
    assert_eq!(runtime.handle.streams[0].items.len(), 1);
}
