//! Scenarios of the runtime as a whole.

use std::collections::BTreeMap;

use rig_runtime::capability::{
    AcceptedPolicies, AcceptedPolicy, Agent, DiscoveryKey, ModelCapability, OutputRequirement,
    Policy, PolicyPoint, PolicyRule, RetrievalRequirement, RetrievedDocument, StoreCapability,
    StoreGrant, ToolCapability, ToolGrant,
};
use rig_runtime::effect::{
    CanonicalError, DiscoveredTool, DiscoveryEffectOutput, EffectCancellation, EffectCompletion,
    EffectDelta, EffectOutput, ModelEffectOutput, ModelToolCall, OperationPhase, OperationState,
    RunOutput, StoreEffectOutput, StoreOperation, ToolDecision, ToolEffectOutput, TranscriptEntry,
    Usage,
};
use rig_runtime::identity::{StableId, TenantId};
use rig_runtime::message::{Message, UserContent};
use rig_runtime::persisted::{DomainSnapshot, PersistedAgent};
use rig_runtime::run::{
    AgentHandle, DiscoverySource, DiscoveryState, PersistenceError, PromptPayload, RunState,
    RuntimeConfig, RuntimeInvariantError, SpawnError, StreamItem, StreamReceiveError,
    StreamTerminal, SubscriptionState,
};
use rig_runtime::runtime::{install_runtime, Runtime};
use rig_runtime::transcript::prompt_payload;
use rig_runtime::world::World;

fn id(value: &str) -> StableId {
    StableId::new(value.to_owned()).unwrap()
}

fn tenant(value: &str) -> TenantId {
    TenantId::new(value.to_owned()).unwrap()
}

fn runtime() -> Runtime {
    Runtime::new(RuntimeConfig::default(), 1).unwrap()
}

fn json(text: &str) -> serde_json::Value {
    serde_json::from_str(text).unwrap()
}

fn prompt(text: &str) -> PromptPayload {
    let quoted = serde_json::Value::String(text.to_owned()).to_string();
    let encoded = format!(
        "{{\"role\":\"user\",\"content\":[{{\"type\":\"text\",\"text\":{quoted}}}]}}"
    );
    let message = Message::User {
        content: vec![UserContent::Text(text.to_owned())],
    };
    prompt_payload(&message, Ok(json(&encoded))).unwrap()
}

fn runtime_with_tool() -> (Runtime, AgentHandle) {
    let mut runtime = runtime();
    let model = runtime
        .spawn_model(
            id("model"),
            tenant("a"),
            ModelCapability {
                provider: "fake".to_owned(),
                model: "test".to_owned(),
                revision: 1,
                retired: false,
            },
        )
        .unwrap();
    let agent = runtime
        .spawn_agent(id("agent"), tenant("a"), Agent::default(), model)
        .unwrap();
    let tool = runtime
        .spawn_tool(
            id("tool"),
            tenant("a"),
            ToolCapability {
                name: "lookup".to_owned(),
                description: "lookup tool".to_owned(),
                parameters: json(r##"{"type": "object"}"##),
                order: 0,
                revision: 1,
                retired: false,
            },
        )
        .unwrap();
    runtime
        .grant_tool(
            id("grant"),
            tenant("a"),
            ToolGrant {
                order: 0,
                enabled: true,
            },
            agent,
            tool,
        )
        .unwrap();
    (runtime, agent)
}

#[test]
fn model_effect_round_trip_uses_world_resident_schedule() {
    let mut runtime = runtime();
    let model = runtime
        .spawn_model(
            id("model"),
            tenant("a"),
            ModelCapability {
                provider: "fake".to_owned(),
                model: "test".to_owned(),
                revision: 7,
                retired: false,
            },
        )
        .unwrap();
    let agent = runtime
        .spawn_agent(
            id("agent"),
            tenant("a"),
            Agent {
                instructions: "be concise".to_owned(),
                ..Agent::default()
            },
            model,
        )
        .unwrap();
    let pending = runtime.handle().prompt(agent, prompt("hello")).unwrap();

    runtime.run_until_stalled().unwrap();
    let request = runtime.effects().try_recv().unwrap().unwrap();
    assert_eq!(request.model_input().unwrap().decision.revision, 7);
    assert_eq!(
        request.model_input().unwrap().prompt,
        json(r##"{ "role": "user", "content": [{"type": "text", "text": "hello"}] }"##)
    );

    runtime
        .effects()
        .try_send(EffectCompletion {
            operation: request.operation,
            generation: request.generation,
            result: Ok(EffectOutput::Model(ModelEffectOutput {
                assistant_message: None,
                text: "hi".to_owned(),
                usage: Usage {
                    input_tokens: 3,
                    output_tokens: 1,
                },
                tool_calls: Vec::new(),
            })),
        })
        .unwrap();
    runtime.run_until_stalled().unwrap();

    let run = runtime.resolve_run(&pending).unwrap();
    assert_eq!(
        runtime.world().runs.states.get(run.entity()),
        Some(&RunState::Completed(RunOutput {
            text: "hi".to_owned(),
            usage: Usage {
                input_tokens: 3,
                output_tokens: 1,
            },
        }))
    );
    assert_eq!(
        runtime
            .world()
            .runs.records
            .get(run.entity())
            .unwrap()
            .transcript,
        vec![
            TranscriptEntry::User("hello".to_owned()),
            TranscriptEntry::Assistant("hi".to_owned()),
        ]
    );
    assert_eq!(runtime.metrics().unobserved_terminal_runs, 1);
    assert!(matches!(
        runtime.observe_run(run).unwrap(),
        Some(RunState::Completed(_))
    ));
    runtime.run_until_stalled().unwrap();
    assert!(runtime.world().runs.states.get(run.entity()).is_none());
    assert!(
        runtime
            .world()
            .operations.states
            .get(request.operation)
            .is_none()
    );
    assert!(runtime.resolve_run(&pending).is_none());
}

#[test]
fn streaming_and_blocking_observe_the_same_terminal_state() {
    let mut runtime = runtime();
    let model = runtime
        .spawn_model(
            id("model"),
            tenant("a"),
            ModelCapability {
                provider: "fake".to_owned(),
                model: "test".to_owned(),
                revision: 1,
                retired: false,
            },
        )
        .unwrap();
    let agent = runtime
        .spawn_agent(id("agent"), tenant("a"), Agent::default(), model)
        .unwrap();
    let (pending, mut stream) = runtime.handle().prompt_stream(agent, prompt("hello")).unwrap();
    runtime.run_until_stalled().unwrap();
    let request = runtime.effects().try_recv().unwrap().unwrap();
        runtime
        .effects()
        .try_send_delta(EffectDelta {
            operation: request.operation,
            generation: request.generation,
            sequence: 0,
            text: "he".to_owned(),
        })
        .unwrap();
    runtime
        .effects()
        .try_send_delta(EffectDelta {
            operation: request.operation,
            generation: request.generation,
            sequence: 1,
            text: "llo".to_owned(),
        })
        .unwrap();
    runtime
        .effects()
        .try_send(EffectCompletion {
            operation: request.operation,
            generation: request.generation,
            result: Ok(EffectOutput::Model(ModelEffectOutput {
                assistant_message: None,
                text: "hello".to_owned(),
                usage: Usage {
                    input_tokens: 2,
                    output_tokens: 1,
                },
                tool_calls: Vec::new(),
            })),
        })
        .unwrap();
    runtime.run_until_stalled().unwrap();

    let output = RunOutput {
        text: "hello".to_owned(),
        usage: Usage {
            input_tokens: 2,
            output_tokens: 1,
        },
    };
    assert_eq!(
        stream.try_recv(runtime.handle()).unwrap(),
        Some(StreamItem::Delta {
            sequence: 0,
            text: "he".to_owned(),
        })
    );
    assert_eq!(
        stream.try_recv(runtime.handle()).unwrap(),
        Some(StreamItem::Delta {
            sequence: 1,
            text: "llo".to_owned(),
        })
    );
    assert_eq!(
        stream.try_recv(runtime.handle()).unwrap(),
        Some(StreamItem::Finished(StreamTerminal::Completed(
            output.clone()
        )))
    );
    let run = runtime.resolve_run(&pending).unwrap();
    assert_eq!(
        runtime.world().runs.states.get(run.entity()),
        Some(&RunState::Completed(output))
    );
}

#[test]
fn structured_output_is_snapshotted_forwarded_and_validated() {
    let mut runtime = runtime();
    let model = runtime
        .spawn_model(
            id("model"),
            tenant("a"),
            ModelCapability {
                provider: "fake".to_owned(),
                model: "test".to_owned(),
                revision: 1,
                retired: false,
            },
        )
        .unwrap();
    let agent = runtime
        .spawn_agent(id("agent"), tenant("a"), Agent::default(), model)
        .unwrap();
    let old_schema = json(r##"{ "type": "object", "properties": {"old": {"type": "string"}}, "required": ["old"] }"##);
    let new_schema = json(r##"{ "type": "object", "properties": {"new": {"type": "integer"}}, "required": ["new"] }"##);
    runtime
        .set_output_requirement(
            agent,
            OutputRequirement {
                schema: old_schema.clone(),
            },
        )
        .unwrap();

    let first_pending = runtime.handle().prompt(agent, prompt("first")).unwrap();
    runtime.run_until_stalled().unwrap();
    let first = runtime.effects().try_recv().unwrap().unwrap();
    assert_eq!(first.model_input().unwrap().output_schema, Some(old_schema));
    runtime
        .set_output_requirement(
            agent,
            OutputRequirement {
                schema: new_schema.clone(),
            },
        )
        .unwrap();
    runtime
        .effects()
        .try_send(EffectCompletion {
            operation: first.operation,
            generation: first.generation,
            result: Ok(EffectOutput::Model(ModelEffectOutput {
                assistant_message: None,
                text: r#"{"old":"accepted"}"#.to_owned(),
                usage: Usage::default(),
                tool_calls: Vec::new(),
            })),
        })
        .unwrap();
    runtime.run_until_stalled().unwrap();
    let first_run = runtime.resolve_run(&first_pending).unwrap();
    assert!(matches!(
        runtime.world().runs.states.get(first_run.entity()),
        Some(RunState::Completed(_))
    ));

    let second_pending = runtime.handle().prompt(agent, prompt("second")).unwrap();
    runtime.run_until_stalled().unwrap();
    let second = runtime.effects().try_recv().unwrap().unwrap();
    assert_eq!(
        second.model_input().unwrap().output_schema,
        Some(new_schema)
    );
    runtime
        .effects()
        .try_send(EffectCompletion {
            operation: second.operation,
            generation: second.generation,
            result: Ok(EffectOutput::Model(ModelEffectOutput {
                assistant_message: None,
                text: r#"{"old":"rejected"}"#.to_owned(),
                usage: Usage::default(),
                tool_calls: Vec::new(),
            })),
        })
        .unwrap();
    runtime.run_until_stalled().unwrap();
    let second_run = runtime.resolve_run(&second_pending).unwrap();
    assert!(matches!(
        runtime.world().runs.states.get(second_run.entity()),
        Some(RunState::Failed(CanonicalError::InvalidStructuredOutput(message)))
            if message.contains("new")
    ));
}

#[test]
fn structured_output_validator_resolves_refs_and_composition() {
    let schema = json(r##"{ "$defs": { "payload": { "oneOf": [ { "type": "object", "properties": {"count": {"type": "integer", "minimum": 1}}, "required": ["count"], "additionalProperties": false }, {"const": "unavailable"} ] } }, "$ref": "#/$defs/payload" }"##);

    assert!(rig_runtime::json::validate_structured_output(&schema, r#"{"count":2}"#).is_ok());
    assert!(rig_runtime::json::validate_structured_output(&schema, r#""unavailable""#).is_ok());
    assert!(matches!(
        rig_runtime::json::validate_structured_output(&schema, r#"{"count":0,"extra":true}"#),
        Err(CanonicalError::InvalidStructuredOutput(_))
    ));
}

#[test]
fn duplicate_provider_tool_call_ids_fail_before_tool_dispatch() {
    let mut runtime = runtime();
    let model = runtime
        .spawn_model(
            id("model"),
            tenant("a"),
            ModelCapability {
                provider: "fake".to_owned(),
                model: "test".to_owned(),
                revision: 1,
                retired: false,
            },
        )
        .unwrap();
    let agent = runtime
        .spawn_agent(id("agent"), tenant("a"), Agent::default(), model)
        .unwrap();
    let tool = runtime
        .spawn_tool(
            id("tool"),
            tenant("a"),
            ToolCapability {
                name: "lookup".to_owned(),
                description: String::new(),
                parameters: json(r##"{"type": "object"}"##),
                order: 0,
                revision: 1,
                retired: false,
            },
        )
        .unwrap();
    runtime
        .grant_tool(
            id("grant"),
            tenant("a"),
            ToolGrant {
                order: 0,
                enabled: true,
            },
            agent,
            tool,
        )
        .unwrap();
    let pending = runtime.handle().prompt(agent, prompt("lookup twice")).unwrap();
    runtime.run_until_stalled().unwrap();
    let request = runtime.effects().try_recv().unwrap().unwrap();
    runtime
        .effects()
        .try_send(EffectCompletion {
            operation: request.operation,
            generation: request.generation,
            result: Ok(EffectOutput::Model(ModelEffectOutput {
                assistant_message: None,
                text: String::new(),
                usage: Usage::default(),
                tool_calls: vec![
                    ModelToolCall {
                        id: "duplicate".to_owned(),
                        provider_result_id: "duplicate".to_owned(),
                        provider_call_id: None,
                        name: "lookup".to_owned(),
                        arguments: json(r##"{"id": 1}"##),
                    },
                    ModelToolCall {
                        id: "duplicate".to_owned(),
                        provider_result_id: "duplicate".to_owned(),
                        provider_call_id: None,
                        name: "lookup".to_owned(),
                        arguments: json(r##"{"id": 2}"##),
                    },
                ],
            })),
        })
        .unwrap();
    runtime.run_until_stalled().unwrap();

    let run = runtime.resolve_run(&pending).unwrap();
    assert_eq!(
        runtime.world().runs.states.get(run.entity()),
        Some(&RunState::Failed(CanonicalError::DuplicateToolCall(
            "duplicate".to_owned()
        )))
    );
    assert_eq!(runtime.effects().try_recv().unwrap(), None);
    assert_eq!(runtime.run_committed_turns(run), Vec::new());
}

#[test]
fn vector_retrieval_enriches_the_immutable_model_effect() {
    let mut runtime = runtime();
    let model = runtime
        .spawn_model(
            id("model"),
            tenant("a"),
            ModelCapability {
                provider: "fake".to_owned(),
                model: "test".to_owned(),
                revision: 1,
                retired: false,
            },
        )
        .unwrap();
    let agent = runtime
        .spawn_agent(id("agent"), tenant("a"), Agent::default(), model)
        .unwrap();
    let store = runtime
        .spawn_store(
            id("vectors"),
            tenant("a"),
            StoreCapability {
                kind: "vector-search".to_owned(),
                revision: 5,
                retired: false,
            },
        )
        .unwrap();
    runtime
        .grant_store(
            id("vector-grant"),
            tenant("a"),
            StoreGrant {
                order: 0,
                enabled: true,
            },
            agent,
            store,
        )
        .unwrap();
    runtime
        .set_retrieval_requirement(agent, RetrievalRequirement { limit: 2 })
        .unwrap();

    runtime.handle().prompt(agent, prompt("find context")).unwrap();
    runtime.run_until_stalled().unwrap();
    let retrieval = runtime.effects().try_recv().unwrap().unwrap();
    assert!(matches!(
        &retrieval.store_input().unwrap().operation,
        StoreOperation::Retrieve { query, limit }
            if query == "find context" && *limit == 2
    ));
    let document = RetrievedDocument {
        id: "doc-1".to_owned(),
        text: "retrieved text".to_owned(),
        metadata: BTreeMap::from([("source".to_owned(), "test".to_owned())]),
    };
    runtime
        .effects()
        .try_send(EffectCompletion {
            operation: retrieval.operation,
            generation: retrieval.generation,
            result: Ok(EffectOutput::Store(StoreEffectOutput::Retrieved(vec![
                document.clone(),
            ]))),
        })
        .unwrap();
    runtime.run_until_stalled().unwrap();
    let model = runtime.effects().try_recv().unwrap().unwrap();
    assert_eq!(model.model_input().unwrap().documents, vec![document]);
    assert_eq!(model.model_input().unwrap().decision.revision, 1);
}

#[test]
fn streaming_rejects_duplicate_gap_and_late_deltas() {
    let mut runtime = runtime();
    let model = runtime
        .spawn_model(
            id("model"),
            tenant("a"),
            ModelCapability {
                provider: "fake".to_owned(),
                model: "test".to_owned(),
                revision: 1,
                retired: false,
            },
        )
        .unwrap();
    let agent = runtime
        .spawn_agent(id("agent"), tenant("a"), Agent::default(), model)
        .unwrap();
    let (_, mut stream) = runtime.handle().prompt_stream(agent, prompt("hello")).unwrap();
    runtime.run_until_stalled().unwrap();
    let request = runtime.effects().try_recv().unwrap().unwrap();
        for (sequence, text) in [(0, "accepted"), (0, "duplicate"), (2, "gap")] {
        runtime
            .effects()
            .try_send_delta(EffectDelta {
                operation: request.operation,
                generation: request.generation,
                sequence,
                text: text.to_owned(),
            })
            .unwrap();
    }
    runtime
        .effects()
        .try_send(EffectCompletion {
            operation: request.operation,
            generation: request.generation,
            result: Ok(EffectOutput::Model(ModelEffectOutput {
                assistant_message: None,
                text: "done".to_owned(),
                usage: Usage::default(),
                tool_calls: Vec::new(),
            })),
        })
        .unwrap();
    runtime
        .effects()
        .try_send_delta(EffectDelta {
            operation: request.operation,
            generation: request.generation,
            sequence: 1,
            text: "late".to_owned(),
        })
        .unwrap();
    runtime.run_until_stalled().unwrap();

    assert_eq!(
        stream.try_recv(runtime.handle()).unwrap(),
        Some(StreamItem::Delta {
            sequence: 0,
            text: "accepted".to_owned(),
        })
    );
    assert!(matches!(
        stream.try_recv(runtime.handle()).unwrap(),
        Some(StreamItem::Finished(StreamTerminal::Completed(_)))
    ));
    assert_eq!(stream.try_recv(runtime.handle()).unwrap(), None);
}

#[test]
fn slow_stream_consumer_is_disconnected_without_cancelling_the_run() {
    let mut runtime = Runtime::new(
        RuntimeConfig {
            subscriber_capacity: 1,
            ..RuntimeConfig::default()
        },
        1,
    )
    .unwrap();
    let model = runtime
        .spawn_model(
            id("model"),
            tenant("a"),
            ModelCapability {
                provider: "fake".to_owned(),
                model: "test".to_owned(),
                revision: 1,
                retired: false,
            },
        )
        .unwrap();
    let agent = runtime
        .spawn_agent(id("agent"), tenant("a"), Agent::default(), model)
        .unwrap();
    let (pending, mut stream) = runtime.handle().prompt_stream(agent, prompt("hello")).unwrap();
    runtime.run_until_stalled().unwrap();
    let request = runtime.effects().try_recv().unwrap().unwrap();
        for sequence in 0..2 {
        runtime
            .effects()
            .try_send_delta(EffectDelta {
                operation: request.operation,
                generation: request.generation,
                sequence,
                text: sequence.to_string(),
            })
            .unwrap();
    }
    runtime
        .effects()
        .try_send(EffectCompletion {
            operation: request.operation,
            generation: request.generation,
            result: Ok(EffectOutput::Model(ModelEffectOutput {
                assistant_message: None,
                text: "done".to_owned(),
                usage: Usage::default(),
                tool_calls: Vec::new(),
            })),
        })
        .unwrap();
    runtime.run_until_stalled().unwrap();

    let run = runtime.resolve_run(&pending).unwrap();
    assert!(matches!(
        runtime.world().runs.states.get(run.entity()),
        Some(RunState::Completed(_))
    ));
    let subscription = runtime.world().runs.subscription_of.sources(run.entity())[0];
    assert_eq!(
        runtime.world().runs.subscriptions.get(subscription),
        Some(&SubscriptionState::DroppedSlowConsumer)
    );
    assert_eq!(
        stream.try_recv(runtime.handle()).unwrap(),
        Some(StreamItem::Delta {
            sequence: 0,
            text: "0".to_owned(),
        })
    );
    assert_eq!(stream.try_recv(runtime.handle()), Err(StreamReceiveError::Disconnected));
    runtime.run_until_stalled().unwrap();
    assert!(runtime.resolve_run(&pending).is_none());
}

#[test]
fn dropping_stream_acknowledges_terminal_run_when_command_queue_is_full() {
    let mut runtime = Runtime::new(
        RuntimeConfig {
            command_capacity: 1,
            ..RuntimeConfig::default()
        },
        1,
    )
    .unwrap();
    let model = runtime
        .spawn_model(
            id("model"),
            tenant("a"),
            ModelCapability {
                provider: "fake".to_owned(),
                model: "test".to_owned(),
                revision: 1,
                retired: false,
            },
        )
        .unwrap();
    let agent = runtime
        .spawn_agent(id("agent"), tenant("a"), Agent::default(), model)
        .unwrap();
    let (pending, stream) = runtime.handle().prompt_stream(agent, prompt("first")).unwrap();
    runtime.run_until_stalled().unwrap();
    let request = runtime.effects().try_recv().unwrap().unwrap();
    runtime
        .effects()
        .try_send(EffectCompletion {
            operation: request.operation,
            generation: request.generation,
            result: Ok(EffectOutput::Model(ModelEffectOutput {
                assistant_message: None,
                text: "done".to_owned(),
                usage: Usage::default(),
                tool_calls: Vec::new(),
            })),
        })
        .unwrap();
    runtime.run_until_stalled().unwrap();

    runtime
        .handle()
        .prompt(agent, prompt("fills command queue"))
        .unwrap();
    stream.close(runtime.handle());
    runtime.run_until_stalled().unwrap();

    assert!(runtime.resolve_run(&pending).is_none());
}

#[test]
fn replacement_does_not_change_an_accepted_decision() {
    let mut runtime = runtime();
    let model = runtime
        .spawn_model(
            id("model"),
            tenant("a"),
            ModelCapability {
                provider: "fake".to_owned(),
                model: "old".to_owned(),
                revision: 1,
                retired: false,
            },
        )
        .unwrap();
    let agent = runtime
        .spawn_agent(id("agent"), tenant("a"), Agent::default(), model)
        .unwrap();
    runtime.handle().prompt(agent, prompt("hello")).unwrap();
    runtime.run_until_stalled().unwrap();
    runtime
        .world_mut()
        .domain.models.insert(model, ModelCapability {
            provider: "fake".to_owned(),
            model: "new".to_owned(),
            revision: 2,
            retired: false,
        });

    let request = runtime.effects().try_recv().unwrap().unwrap();
    assert_eq!(request.model_input().unwrap().decision.model, "old");
    assert_eq!(request.model_input().unwrap().decision.revision, 1);
}

#[test]
fn duplicate_and_stale_completions_are_idempotently_ignored() {
    let mut runtime = runtime();
    let model = runtime
        .spawn_model(
            id("model"),
            tenant("a"),
            ModelCapability {
                provider: "fake".to_owned(),
                model: "test".to_owned(),
                revision: 1,
                retired: false,
            },
        )
        .unwrap();
    let agent = runtime
        .spawn_agent(id("agent"), tenant("a"), Agent::default(), model)
        .unwrap();
    let pending = runtime.handle().prompt(agent, prompt("hello")).unwrap();
    runtime.run_until_stalled().unwrap();
    let request = runtime.effects().try_recv().unwrap().unwrap();
        let completion = EffectCompletion {
        operation: request.operation,
        generation: request.generation,
        result: Ok(EffectOutput::Model(ModelEffectOutput {
            assistant_message: None,
            text: "once".to_owned(),
            usage: Usage::default(),
            tool_calls: Vec::new(),
        })),
    };
    runtime.effects().try_send(completion.clone()).unwrap();
    runtime.effects().try_send(completion).unwrap();
    runtime
        .effects()
        .try_send(EffectCompletion {
            operation: request.operation,
            generation: request.generation + 1,
            result: Ok(EffectOutput::Model(ModelEffectOutput {
                assistant_message: None,
                text: "stale".to_owned(),
                usage: Usage::default(),
                tool_calls: Vec::new(),
            })),
        })
        .unwrap();
    runtime.run_until_stalled().unwrap();

    let run = runtime.resolve_run(&pending).unwrap();
    let record = runtime.world().runs.records.get(run.entity()).unwrap();
    assert_eq!(
        record.transcript,
        vec![
            TranscriptEntry::User("hello".to_owned()),
            TranscriptEntry::Assistant("once".to_owned()),
        ]
    );
}

#[test]
fn cross_tenant_agent_model_relationship_is_rejected() {
    let mut runtime = runtime();
    let model = runtime
        .spawn_model(
            id("model"),
            tenant("a"),
            ModelCapability {
                provider: "fake".to_owned(),
                model: "test".to_owned(),
                revision: 1,
                retired: false,
            },
        )
        .unwrap();
    assert_eq!(
        runtime.spawn_agent(id("agent"), tenant("b"), Agent::default(), model),
        Err(SpawnError::TenantMismatch)
    );
}

#[test]
fn invariant_validation_detects_manual_cross_tenant_and_wrong_kind_relationships() {
    let mut runtime = runtime();
    let model = runtime
        .spawn_model(
            id("model-a"),
            tenant("a"),
            ModelCapability {
                provider: "fake".to_owned(),
                model: "m".to_owned(),
                revision: 1,
                retired: false,
            },
        )
        .unwrap();
    runtime
        .world_mut()
        .spawn_agent(id("cross-tenant-agent"), tenant("b"), Agent::default(), model);
    let wrong_kind = runtime.world_mut().reserve();
    let world = runtime.world_mut();
    world.stable_ids.insert(wrong_kind, id("not-a-model"));
    world.tenants.insert(wrong_kind, tenant("a"));
    world.domain.agents.insert(wrong_kind, Agent::default());
    world.spawn_agent(id("wrong-kind-agent"), tenant("a"), Agent::default(), wrong_kind);

    runtime.update();
    let violations = runtime.validate_invariants().unwrap_err();
    assert!(violations.iter().any(|violation| matches!(
        violation,
        RuntimeInvariantError::RelationshipTenantMismatch {
            relationship: "UsesModel",
            ..
        }
    )));
    assert!(violations.iter().any(|violation| matches!(
        violation,
        RuntimeInvariantError::InvalidRelationship {
            relationship: "UsesModel",
            target,
            ..
        } if *target == wrong_kind
    )));
}

#[test]
fn ordered_policy_denies_before_dispatch_and_records_revision() {
    let mut runtime = runtime();
    let model = runtime
        .spawn_model(
            id("model"),
            tenant("a"),
            ModelCapability {
                provider: "fake".to_owned(),
                model: "test".to_owned(),
                revision: 1,
                retired: false,
            },
        )
        .unwrap();
    let agent = runtime
        .spawn_agent(id("agent"), tenant("a"), Agent::default(), model)
        .unwrap();
    let policy = runtime
        .spawn_policy(
            id("deny-secret"),
            tenant("a"),
            Policy {
                order: 10,
                revision: 4,
                rule: PolicyRule::DenyPromptContains("secret".to_owned()),
            },
            agent,
        )
        .unwrap();
    let pending = runtime.handle().prompt(agent, prompt("reveal the secret")).unwrap();

    runtime.run_until_stalled().unwrap();
    assert_eq!(runtime.effects().try_recv().unwrap(), None);
    let run = runtime.resolve_run(&pending).unwrap();
    assert_eq!(
        runtime.world().runs.states.get(run.entity()),
        Some(&RunState::Failed(CanonicalError::PolicyDenied {
            policy: "deny-secret".to_owned(),
        }))
    );
    let operation = runtime.world().operations.operation_of.sources(run.entity())[0];
    assert_eq!(
        runtime.world().operations.accepted_policies.get(operation),
        Some(&AcceptedPolicies(vec![AcceptedPolicy {
            id: id("deny-secret"),
            entity: policy,
            revision: 4,
            order: 10,
            point: PolicyPoint::Request,
        }]))
    );
}

#[test]
fn tool_collision_resolution_is_deterministic_and_snapshotted() {
    let mut runtime = runtime();
    let model = runtime
        .spawn_model(
            id("model"),
            tenant("a"),
            ModelCapability {
                provider: "fake".to_owned(),
                model: "test".to_owned(),
                revision: 1,
                retired: false,
            },
        )
        .unwrap();
    let agent = runtime
        .spawn_agent(id("agent"), tenant("a"), Agent::default(), model)
        .unwrap();
    let preferred = runtime
        .spawn_tool(
            id("preferred"),
            tenant("a"),
            ToolCapability {
                name: "lookup".to_owned(),
                description: "preferred".to_owned(),
                parameters: json(r##"{"type": "object"}"##),
                order: 50,
                revision: 3,
                retired: false,
            },
        )
        .unwrap();
    let fallback = runtime
        .spawn_tool(
            id("fallback"),
            tenant("a"),
            ToolCapability {
                name: "lookup".to_owned(),
                description: "fallback".to_owned(),
                parameters: json(r##"{"type": "object"}"##),
                order: 1,
                revision: 8,
                retired: false,
            },
        )
        .unwrap();
    runtime
        .grant_tool(
            id("grant-preferred"),
            tenant("a"),
            ToolGrant {
                order: 0,
                enabled: true,
            },
            agent,
            preferred,
        )
        .unwrap();
    runtime
        .grant_tool(
            id("grant-fallback"),
            tenant("a"),
            ToolGrant {
                order: 1,
                enabled: true,
            },
            agent,
            fallback,
        )
        .unwrap();

    runtime.handle().prompt(agent, prompt("first")).unwrap();
    runtime.run_until_stalled().unwrap();
    runtime
        .world_mut()
        .domain.tools.insert(preferred, ToolCapability {
            name: "lookup".to_owned(),
            description: "mutated".to_owned(),
            parameters: json(r##"{"type": "object"}"##),
            order: 50,
            revision: 4,
            retired: true,
        });
    let first = runtime.effects().try_recv().unwrap().unwrap();
    assert_eq!(
        first.model_input().unwrap().tools,
        vec![ToolDecision {
            tool_entity: preferred,
            tool_id: id("preferred"),
            revision: 3,
            name: "lookup".to_owned(),
            description: "preferred".to_owned(),
            parameters: json(r##"{"type": "object"}"##),
            order: 0,
        }]
    );

    runtime.handle().prompt(agent, prompt("second")).unwrap();
    runtime.run_until_stalled().unwrap();
    let second = runtime.effects().try_recv().unwrap().unwrap();
    assert_eq!(second.model_input().unwrap().tools.len(), 1);
    assert_eq!(
        second.model_input().unwrap().tools[0].tool_id,
        id("fallback")
    );
    assert_eq!(second.model_input().unwrap().tools[0].revision, 8);
}

#[test]
fn parallel_tool_batch_commits_atomically_in_model_call_order() {
    let mut runtime = runtime();
    let model = runtime
        .spawn_model(
            id("model"),
            tenant("a"),
            ModelCapability {
                provider: "fake".to_owned(),
                model: "test".to_owned(),
                revision: 1,
                retired: false,
            },
        )
        .unwrap();
    let agent = runtime
        .spawn_agent(id("agent"), tenant("a"), Agent::default(), model)
        .unwrap();
    let first_tool = runtime
        .spawn_tool(
            id("first-tool"),
            tenant("a"),
            ToolCapability {
                name: "first".to_owned(),
                description: "first tool".to_owned(),
                parameters: json(r##"{"type": "object"}"##),
                order: 0,
                revision: 3,
                retired: false,
            },
        )
        .unwrap();
    let second_tool = runtime
        .spawn_tool(
            id("second-tool"),
            tenant("a"),
            ToolCapability {
                name: "second".to_owned(),
                description: "second tool".to_owned(),
                parameters: json(r##"{"type": "object"}"##),
                order: 1,
                revision: 4,
                retired: false,
            },
        )
        .unwrap();
    runtime
        .grant_tool(
            id("first-grant"),
            tenant("a"),
            ToolGrant {
                order: 0,
                enabled: true,
            },
            agent,
            first_tool,
        )
        .unwrap();
    runtime
        .grant_tool(
            id("second-grant"),
            tenant("a"),
            ToolGrant {
                order: 1,
                enabled: true,
            },
            agent,
            second_tool,
        )
        .unwrap();

    let pending = runtime.handle().prompt(agent, prompt("use both")).unwrap();
    runtime.run_until_stalled().unwrap();
    let initial_model = runtime.effects().try_recv().unwrap().unwrap();
    runtime
        .effects()
        .try_send(EffectCompletion {
            operation: initial_model.operation,
            generation: initial_model.generation,
            result: Ok(EffectOutput::Model(ModelEffectOutput {
                assistant_message: None,
                text: String::new(),
                usage: Usage {
                    input_tokens: 4,
                    output_tokens: 1,
                },
                tool_calls: vec![
                    ModelToolCall {
                        id: "call-0".to_owned(),
                        provider_result_id: "call-0".to_owned(),
                        provider_call_id: None,
                        name: "first".to_owned(),
                        arguments: json(r##"{"value": 0}"##),
                    },
                    ModelToolCall {
                        id: "call-1".to_owned(),
                        provider_result_id: "call-1".to_owned(),
                        provider_call_id: None,
                        name: "second".to_owned(),
                        arguments: json(r##"{"value": 1}"##),
                    },
                ],
            })),
        })
        .unwrap();
    runtime.run_until_stalled().unwrap();

    let first_request = runtime.effects().try_recv().unwrap().unwrap();
    let second_request = runtime.effects().try_recv().unwrap().unwrap();
    assert_eq!(first_request.tool_input().unwrap().index, 0);
    assert_eq!(second_request.tool_input().unwrap().index, 1);
    assert_eq!(first_request.tool_input().unwrap().decision.revision, 3);

    runtime.world_mut().despawn(first_tool);
    runtime
        .effects()
        .try_send(EffectCompletion {
            operation: second_request.operation,
            generation: second_request.generation,
            result: Ok(EffectOutput::Tool(ToolEffectOutput {
                call_id: "call-1".to_owned(),
                provider_result_id: "call-1".to_owned(),
                provider_call_id: None,
                name: "second".to_owned(),
                raw: json(r##"{"result": 1}"##),
                presentation: "second result".to_owned(),
                failure: None,
            })),
        })
        .unwrap();
    runtime.run_until_stalled().unwrap();

    let run = runtime.resolve_run(&pending).unwrap();
    assert!(matches!(
        runtime.world().runs.states.get(run.entity()),
        Some(RunState::WaitingTools { .. })
    ));
    assert!(
        !runtime
            .world()
            .runs.records
            .get(run.entity())
            .unwrap()
            .transcript
            .iter()
            .any(|entry| matches!(entry, TranscriptEntry::ToolResult { .. }))
    );

    runtime
        .effects()
        .try_send(EffectCompletion {
            operation: first_request.operation,
            generation: first_request.generation,
            result: Ok(EffectOutput::Tool(ToolEffectOutput {
                call_id: "call-0".to_owned(),
                provider_result_id: "call-0".to_owned(),
                provider_call_id: None,
                name: "first".to_owned(),
                raw: json(r##"{"result": 0}"##),
                presentation: "first result".to_owned(),
                failure: None,
            })),
        })
        .unwrap();
    runtime.run_until_stalled().unwrap();

    let followup_model = runtime.effects().try_recv().unwrap().unwrap();
    assert_eq!(
        followup_model.model_input().unwrap().tool_results,
        vec![
            ToolEffectOutput {
                call_id: "call-0".to_owned(),
                provider_result_id: "call-0".to_owned(),
                provider_call_id: None,
                name: "first".to_owned(),
                raw: json(r##"{"result": 0}"##),
                presentation: "first result".to_owned(),
                failure: None,
            },
            ToolEffectOutput {
                call_id: "call-1".to_owned(),
                provider_result_id: "call-1".to_owned(),
                provider_call_id: None,
                name: "second".to_owned(),
                raw: json(r##"{"result": 1}"##),
                presentation: "second result".to_owned(),
                failure: None,
            },
        ]
    );
    assert_eq!(
        &followup_model.model_input().unwrap().history,
        &runtime
            .world()
            .runs.records
            .get(run.entity())
            .unwrap()
            .transcript
    );
    runtime
        .effects()
        .try_send(EffectCompletion {
            operation: followup_model.operation,
            generation: followup_model.generation,
            result: Ok(EffectOutput::Model(ModelEffectOutput {
                assistant_message: None,
                text: "done".to_owned(),
                usage: Usage {
                    input_tokens: 6,
                    output_tokens: 2,
                },
                tool_calls: Vec::new(),
            })),
        })
        .unwrap();
    runtime.run_until_stalled().unwrap();

    assert_eq!(
        runtime.world().runs.states.get(run.entity()),
        Some(&RunState::Completed(RunOutput {
            text: "done".to_owned(),
            usage: Usage {
                input_tokens: 10,
                output_tokens: 3,
            },
        }))
    );
    let record = runtime.world().runs.records.get(run.entity()).unwrap();
    assert_eq!(
        record.transcript,
        vec![
            TranscriptEntry::User("use both".to_owned()),
            TranscriptEntry::Assistant(String::new()),
            TranscriptEntry::AssistantToolCall {
                call_id: "call-0".to_owned(),
                name: "first".to_owned(),
                arguments: json(r##"{"value": 0}"##),
            },
            TranscriptEntry::AssistantToolCall {
                call_id: "call-1".to_owned(),
                name: "second".to_owned(),
                arguments: json(r##"{"value": 1}"##),
            },
            TranscriptEntry::ToolResult {
                call_id: "call-0".to_owned(),
                provider_result_id: "call-0".to_owned(),
                provider_call_id: None,
                name: "first".to_owned(),
                raw: json(r##"{"result": 0}"##),
                content: "first result".to_owned(),
            },
            TranscriptEntry::ToolResult {
                call_id: "call-1".to_owned(),
                provider_result_id: "call-1".to_owned(),
                provider_call_id: None,
                name: "second".to_owned(),
                raw: json(r##"{"result": 1}"##),
                content: "second result".to_owned(),
            },
            TranscriptEntry::Assistant("done".to_owned()),
        ]
    );
}

#[test]
fn tool_batch_failure_is_atomic_and_selected_in_model_call_order() {
    let (mut runtime, agent) = runtime_with_tool();
    let pending = runtime.handle().prompt(agent, prompt("call twice")).unwrap();
    runtime.run_until_stalled().unwrap();
    let model_request = runtime.effects().try_recv().unwrap().unwrap();
    runtime
        .effects()
        .try_send(EffectCompletion {
            operation: model_request.operation,
            generation: model_request.generation,
            result: Ok(EffectOutput::Model(ModelEffectOutput {
                assistant_message: None,
                text: String::new(),
                usage: Usage::default(),
                tool_calls: vec![
                    ModelToolCall {
                        id: "first".to_owned(),
                        provider_result_id: "first".to_owned(),
                        provider_call_id: None,
                        name: "lookup".to_owned(),
                        arguments: json(r##"{"order": 0}"##),
                    },
                    ModelToolCall {
                        id: "second".to_owned(),
                        provider_result_id: "second".to_owned(),
                        provider_call_id: None,
                        name: "lookup".to_owned(),
                        arguments: json(r##"{"order": 1}"##),
                    },
                ],
            })),
        })
        .unwrap();
    runtime.run_until_stalled().unwrap();
    let first = runtime.effects().try_recv().unwrap().unwrap();
    let second = runtime.effects().try_recv().unwrap().unwrap();

    runtime
        .effects()
        .try_send(EffectCompletion {
            operation: second.operation,
            generation: second.generation,
            result: Err(CanonicalError::Provider {
                message: "second failure".to_owned(),
                retryable: false,
            }),
        })
        .unwrap();
    runtime.run_until_stalled().unwrap();
    let run = runtime.resolve_run(&pending).unwrap();
    assert!(matches!(
        runtime.world().runs.states.get(run.entity()),
        Some(RunState::WaitingTools { .. })
    ));

    runtime
        .effects()
        .try_send(EffectCompletion {
            operation: first.operation,
            generation: first.generation,
            result: Err(CanonicalError::Provider {
                message: "first failure".to_owned(),
                retryable: false,
            }),
        })
        .unwrap();
    runtime.run_until_stalled().unwrap();

    assert_eq!(
        runtime.world().runs.states.get(run.entity()),
        Some(&RunState::Failed(CanonicalError::Provider {
            message: "first failure".to_owned(),
            retryable: false,
        }))
    );
    assert!(
        !runtime
            .world()
            .runs.records
            .get(run.entity())
            .unwrap()
            .transcript
            .iter()
            .any(|entry| matches!(entry, TranscriptEntry::ToolResult { .. }))
    );
}

#[test]
fn unknown_tool_call_fails_without_dispatching_a_partial_batch() {
    let (mut runtime, agent) = runtime_with_tool();
    let pending = runtime.handle().prompt(agent, prompt("invalid call")).unwrap();
    runtime.run_until_stalled().unwrap();
    let model_request = runtime.effects().try_recv().unwrap().unwrap();
    runtime
        .effects()
        .try_send(EffectCompletion {
            operation: model_request.operation,
            generation: model_request.generation,
            result: Ok(EffectOutput::Model(ModelEffectOutput {
                assistant_message: None,
                text: String::new(),
                usage: Usage::default(),
                tool_calls: vec![
                    ModelToolCall {
                        id: "valid".to_owned(),
                        provider_result_id: "valid".to_owned(),
                        provider_call_id: None,
                        name: "lookup".to_owned(),
                        arguments: json(r##"{}"##),
                    },
                    ModelToolCall {
                        id: "invalid".to_owned(),
                        provider_result_id: "invalid".to_owned(),
                        provider_call_id: None,
                        name: "not-advertised".to_owned(),
                        arguments: json(r##"{}"##),
                    },
                ],
            })),
        })
        .unwrap();
    runtime.run_until_stalled().unwrap();

    let run = runtime.resolve_run(&pending).unwrap();
    assert_eq!(
        runtime.world().runs.states.get(run.entity()),
        Some(&RunState::Failed(CanonicalError::UnknownTool(
            "not-advertised".to_owned(),
        )))
    );
    assert_eq!(runtime.effects().try_recv().unwrap(), None);
    assert!(runtime.world().operations.batch_of.sources(run.entity()).is_empty());
}

#[test]
fn cross_tenant_tool_grant_is_rejected() {
    let mut runtime = runtime();
    let model = runtime
        .spawn_model(
            id("model"),
            tenant("a"),
            ModelCapability {
                provider: "fake".to_owned(),
                model: "test".to_owned(),
                revision: 1,
                retired: false,
            },
        )
        .unwrap();
    let agent = runtime
        .spawn_agent(id("agent"), tenant("a"), Agent::default(), model)
        .unwrap();
    let tool = runtime
        .spawn_tool(
            id("tool"),
            tenant("b"),
            ToolCapability {
                name: "lookup".to_owned(),
                description: String::new(),
                parameters: json(r##"{"type": "object"}"##),
                order: 0,
                revision: 1,
                retired: false,
            },
        )
        .unwrap();
    assert_eq!(
        runtime.grant_tool(
            id("grant"),
            tenant("a"),
            ToolGrant {
                order: 0,
                enabled: true,
            },
            agent,
            tool,
        ),
        Err(SpawnError::TenantMismatch)
    );
}

#[test]
fn discovery_rejects_stale_generations_and_retires_old_versions() {
    let mut runtime = runtime();
    let model = runtime
        .spawn_model(
            id("model"),
            tenant("a"),
            ModelCapability {
                provider: "fake".to_owned(),
                model: "test".to_owned(),
                revision: 1,
                retired: false,
            },
        )
        .unwrap();
    let agent = runtime
        .spawn_agent(id("agent"), tenant("a"), Agent::default(), model)
        .unwrap();
    let source = runtime
        .spawn_discovery_source(id("mcp-source"), tenant("a"), "mcp".to_owned())
        .unwrap();

    runtime.handle().refresh_discovery(source).unwrap();
    runtime.run_until_stalled().unwrap();
    let stale_request = runtime.effects().try_recv().unwrap().unwrap();
    assert_eq!(stale_request.discovery_input().unwrap().generation, 1);
    runtime.handle().refresh_discovery(source).unwrap();
    runtime.run_until_stalled().unwrap();
    let current_request = runtime.effects().try_recv().unwrap().unwrap();
    assert_eq!(current_request.discovery_input().unwrap().generation, 2);
    assert_eq!(
        runtime
            .world()
            .operations.states
            .get(stale_request.operation)
            .unwrap()
            .phase,
        OperationPhase::Superseded
    );

    runtime
        .effects()
        .try_send(EffectCompletion {
            operation: stale_request.operation,
            generation: stale_request.generation,
            result: Ok(EffectOutput::Discovery(DiscoveryEffectOutput {
                tools: vec![DiscoveredTool {
                    key: "stale".to_owned(),
                    name: "stale".to_owned(),
                    description: "must not apply".to_owned(),
                    parameters: json(r##"{"type": "object"}"##),
                    order: 0,
                    revision: 1,
                }],
            })),
        })
        .unwrap();
    runtime.run_until_stalled().unwrap();
    assert_eq!(runtime.world().domain.discovery_keys.entities().len(), 0);

    runtime
        .effects()
        .try_send(EffectCompletion {
            operation: current_request.operation,
            generation: current_request.generation,
            result: Ok(EffectOutput::Discovery(DiscoveryEffectOutput {
                tools: vec![
                    DiscoveredTool {
                        key: "alpha".to_owned(),
                        name: "alpha".to_owned(),
                        description: "version two".to_owned(),
                        parameters: json(r##"{"type": "object"}"##),
                        order: 0,
                        revision: 2,
                    },
                    DiscoveredTool {
                        key: "beta".to_owned(),
                        name: "beta".to_owned(),
                        description: "removed later".to_owned(),
                        parameters: json(r##"{"type": "object"}"##),
                        order: 1,
                        revision: 2,
                    },
                ],
            })),
        })
        .unwrap();
    runtime.run_until_stalled().unwrap();

    let alpha = {
        let world = runtime.world();
        world
            .domain
            .discovery_keys
            .entities()
            .into_iter()
            .find(|entity| {
                world.domain.discovery_keys.get(*entity).unwrap().0 == "alpha"
                    && !world.domain.tools.get(*entity).unwrap().retired
            })
            .unwrap()
    };
    runtime
        .grant_tool(
            id("alpha-grant"),
            tenant("a"),
            ToolGrant {
                order: 0,
                enabled: true,
            },
            agent,
            alpha,
        )
        .unwrap();
    runtime.handle().prompt(agent, prompt("snapshot alpha")).unwrap();
    runtime.run_until_stalled().unwrap();
    let model_request = runtime.effects().try_recv().unwrap().unwrap();
    assert_eq!(model_request.model_input().unwrap().tools[0].revision, 2);

    runtime.handle().refresh_discovery(source).unwrap();
    runtime.run_until_stalled().unwrap();
    let replacement_request = runtime.effects().try_recv().unwrap().unwrap();
    runtime
        .effects()
        .try_send(EffectCompletion {
            operation: replacement_request.operation,
            generation: replacement_request.generation,
            result: Ok(EffectOutput::Discovery(DiscoveryEffectOutput {
                tools: vec![DiscoveredTool {
                    key: "alpha".to_owned(),
                    name: "alpha".to_owned(),
                    description: "version three".to_owned(),
                    parameters: json(r##"{"type": "object"}"##),
                    order: 0,
                    revision: 3,
                }],
            })),
        })
        .unwrap();
    runtime.run_until_stalled().unwrap();

    let world = runtime.world();
    let rows = world
        .domain
        .discovery_keys
        .entities()
        .into_iter()
        .map(|entity| {
            (
                world.domain.discovery_keys.get(entity).unwrap().0.clone(),
                world.domain.tools.get(entity).unwrap().revision,
                world.domain.retired.get(entity).is_some(),
            )
        })
        .collect::<Vec<_>>();
    assert!(rows.contains(&("alpha".to_owned(), 2, true)));
    assert!(!rows.iter().any(|(key, _, _)| key == "beta"));
    assert!(rows.contains(&("alpha".to_owned(), 3, false)));
    assert_eq!(model_request.model_input().unwrap().tools[0].revision, 2);
}

#[test]
fn invalid_discovery_snapshot_does_not_partially_reconcile() {
    let mut runtime = runtime();
    let source = runtime
        .spawn_discovery_source(id("source"), tenant("a"), "fake".to_owned())
        .unwrap();
    runtime.handle().refresh_discovery(source).unwrap();
    runtime.run_until_stalled().unwrap();
    let request = runtime.effects().try_recv().unwrap().unwrap();
    runtime
        .effects()
        .try_send(EffectCompletion {
            operation: request.operation,
            generation: request.generation,
            result: Ok(EffectOutput::Discovery(DiscoveryEffectOutput {
                tools: vec![
                    DiscoveredTool {
                        key: "duplicate".to_owned(),
                        name: "first".to_owned(),
                        description: String::new(),
                        parameters: json(r##"{"type": "object"}"##),
                        order: 0,
                        revision: 1,
                    },
                    DiscoveredTool {
                        key: "duplicate".to_owned(),
                        name: "second".to_owned(),
                        description: String::new(),
                        parameters: json(r##"{"type": "object"}"##),
                        order: 1,
                        revision: 1,
                    },
                ],
            })),
        })
        .unwrap();
    runtime.run_until_stalled().unwrap();

    assert_eq!(
        runtime
            .world()
            .domain.sources
            .get(source.entity())
            .unwrap()
            .state,
        DiscoveryState::Failed(CanonicalError::InvalidDiscovery(
            "duplicate source key `duplicate`".to_owned(),
        ))
    );
    assert_eq!(runtime.world().domain.discovery_keys.entities().len(), 0);
}

#[test]
fn cancellation_rejects_a_late_completion() {
    let mut runtime = runtime();
    let model = runtime
        .spawn_model(
            id("model"),
            tenant("a"),
            ModelCapability {
                provider: "fake".to_owned(),
                model: "test".to_owned(),
                revision: 1,
                retired: false,
            },
        )
        .unwrap();
    let agent = runtime
        .spawn_agent(id("agent"), tenant("a"), Agent::default(), model)
        .unwrap();
    let pending = runtime.handle().prompt(agent, prompt("hello")).unwrap();
    runtime.run_until_stalled().unwrap();
    let request = runtime.effects().try_recv().unwrap().unwrap();
    let run = runtime.resolve_run(&pending).unwrap();

    runtime.handle().cancel(run).unwrap();
    runtime.run_until_stalled().unwrap();
    assert_eq!(
        runtime.effects().try_recv_cancellation().unwrap(),
        Some(EffectCancellation {
            operation: request.operation,
            generation: request.generation,
        })
    );
    runtime
        .effects()
        .try_send(EffectCompletion {
            operation: request.operation,
            generation: request.generation,
            result: Ok(EffectOutput::Model(ModelEffectOutput {
                assistant_message: None,
                text: "too late".to_owned(),
                usage: Usage::default(),
                tool_calls: Vec::new(),
            })),
        })
        .unwrap();
    runtime.run_until_stalled().unwrap();

    assert_eq!(
        runtime.world().runs.states.get(run.entity()),
        Some(&RunState::Cancelled)
    );
    assert_eq!(
        runtime.world().operations.states.get(request.operation),
        Some(&OperationState {
            generation: 0,
            phase: OperationPhase::Cancelled,
        })
    );
}

#[test]
fn cancellation_prevents_dispatch_of_prepared_work() {
    let mut runtime = Runtime::new(
        RuntimeConfig {
            effect_capacity: 1,
            ..RuntimeConfig::default()
        },
        1,
    )
    .unwrap();
    let model = runtime
        .spawn_model(
            id("model"),
            tenant("a"),
            ModelCapability {
                provider: "fake".to_owned(),
                model: "test".to_owned(),
                revision: 1,
                retired: false,
            },
        )
        .unwrap();
    let agent = runtime
        .spawn_agent(id("agent"), tenant("a"), Agent::default(), model)
        .unwrap();
    runtime.handle().prompt(agent, prompt("occupy queue")).unwrap();
    let cancelled = runtime.handle().prompt(agent, prompt("do not dispatch")).unwrap();
    runtime.run_until_stalled().unwrap();

    let _in_flight = runtime.effects().try_recv().unwrap().unwrap();
    let cancelled = runtime.resolve_run(&cancelled).unwrap();
    runtime.handle().cancel(cancelled).unwrap();
    runtime.run_until_stalled().unwrap();

    assert_eq!(runtime.effects().try_recv().unwrap(), None);
    assert_eq!(
        runtime.world().runs.states.get(cancelled.entity()),
        Some(&RunState::Cancelled)
    );
}

#[test]
fn accepted_prompt_for_stale_agent_resolves_as_terminal_failure() {
    let mut runtime = runtime();
    let model = runtime
        .spawn_model(
            id("model"),
            tenant("a"),
            ModelCapability {
                provider: "fake".to_owned(),
                model: "test".to_owned(),
                revision: 1,
                retired: false,
            },
        )
        .unwrap();
    let agent = runtime
        .spawn_agent(id("agent"), tenant("a"), Agent::default(), model)
        .unwrap();
    runtime.world_mut().despawn(agent.entity());

    let pending = runtime.handle().prompt(agent, prompt("hello")).unwrap();
    runtime.run_until_stalled().unwrap();
    let run = runtime.resolve_run(&pending).unwrap();

    assert_eq!(
        runtime.observe_run(run).unwrap(),
        Some(RunState::Failed(CanonicalError::StaleEntity(
            "agent".to_owned()
        )))
    );
    assert_eq!(runtime.effects().try_recv().unwrap(), None);
}

#[test]
fn runtime_owned_deadline_times_out_and_rejects_late_completion() {
    let mut runtime = Runtime::new(
        RuntimeConfig {
            effect_timeout_ticks: 2,
            ..RuntimeConfig::default()
        },
        1,
    )
    .unwrap();
    let model = runtime
        .spawn_model(
            id("model"),
            tenant("a"),
            ModelCapability {
                provider: "fake".to_owned(),
                model: "test".to_owned(),
                revision: 1,
                retired: false,
            },
        )
        .unwrap();
    let agent = runtime
        .spawn_agent(id("agent"), tenant("a"), Agent::default(), model)
        .unwrap();
    let pending = runtime.handle().prompt(agent, prompt("wait")).unwrap();
    runtime.run_until_stalled().unwrap();
    let request = runtime.effects().try_recv().unwrap().unwrap();

    runtime.update();
    runtime.run_until_stalled().unwrap();
    let run = runtime.resolve_run(&pending).unwrap();
    assert_eq!(
        runtime.world().runs.states.get(run.entity()),
        Some(&RunState::Failed(CanonicalError::Timeout))
    );

    runtime
        .effects()
        .try_send(EffectCompletion {
            operation: request.operation,
            generation: request.generation,
            result: Ok(EffectOutput::Model(ModelEffectOutput {
                assistant_message: None,
                text: "late".to_owned(),
                usage: Usage::default(),
                tool_calls: Vec::new(),
            })),
        })
        .unwrap();
    runtime.run_until_stalled().unwrap();
    assert_eq!(
        runtime.world().runs.states.get(run.entity()),
        Some(&RunState::Failed(CanonicalError::Timeout))
    );
}

#[test]
fn persistence_uses_stable_ids_and_remaps_relationships() {
    let mut source = runtime();
    let model = source
        .spawn_model(
            id("model"),
            tenant("a"),
            ModelCapability {
                provider: "fake".to_owned(),
                model: "test".to_owned(),
                revision: 3,
                retired: false,
            },
        )
        .unwrap();
    let agent = source
        .spawn_agent(id("agent"), tenant("a"), Agent::default(), model)
        .unwrap();
    source
        .spawn_policy(
            id("policy"),
            tenant("a"),
            Policy {
                order: 1,
                revision: 2,
                rule: PolicyRule::Allow,
            },
            agent,
        )
        .unwrap();
    let tool = source
        .spawn_tool(
            id("tool"),
            tenant("a"),
            ToolCapability {
                name: "lookup".to_owned(),
                description: "lookup".to_owned(),
                parameters: json(r##"{"type": "object"}"##),
                order: 0,
                revision: 5,
                retired: false,
            },
        )
        .unwrap();
    source
        .grant_tool(
            id("tool-grant"),
            tenant("a"),
            ToolGrant {
                order: 2,
                enabled: true,
            },
            agent,
            tool,
        )
        .unwrap();
    let store = source
        .spawn_store(
            id("store"),
            tenant("a"),
            StoreCapability {
                kind: "conversation-memory".to_owned(),
                revision: 6,
                retired: false,
            },
        )
        .unwrap();
    source
        .grant_store(
            id("store-grant"),
            tenant("a"),
            StoreGrant {
                order: 3,
                enabled: true,
            },
            agent,
            store,
        )
        .unwrap();
    let snapshot = source.snapshot().unwrap();
    assert_eq!(snapshot.agents[0].model_id, id("model"));
    assert_eq!(snapshot.policies[0].agent_id, id("agent"));
    assert_eq!(snapshot.tool_grants[0].agent_id, id("agent"));
    assert_eq!(snapshot.tool_grants[0].tool_id, id("tool"));
    assert_eq!(snapshot.store_grants[0].agent_id, id("agent"));
    assert_eq!(snapshot.store_grants[0].store_id, id("store"));
    assert!(snapshot.discovery_sources.is_empty());

    let mut destination = runtime();
    let restored = destination.restore(snapshot).unwrap();
    let restored_agent = restored.get(&id("agent")).unwrap();
    let restored_model = restored.get(&id("model")).unwrap();
    let restored_policy = restored.get(&id("policy")).unwrap();
    let restored_tool = restored.get(&id("tool")).unwrap();
    let restored_tool_grant = restored.get(&id("tool-grant")).unwrap();
    let restored_store = restored.get(&id("store")).unwrap();
    let restored_store_grant = restored.get(&id("store-grant")).unwrap();
    assert_eq!(
        destination
            .world()
            .domain.uses_model
            .get(restored_agent)
            .copied().unwrap(),
        restored_model
    );
    assert_eq!(
        destination
            .world()
            .domain.policy_for
            .get(restored_policy)
            .copied().unwrap(),
        restored_agent
    );
    assert_eq!(
        destination
            .world()
            .domain.grant_for_agent
            .get(restored_tool_grant)
            .copied().unwrap(),
        restored_agent
    );
    assert_eq!(
        destination
            .world()
            .domain.grant_for_tool
            .get(restored_tool_grant)
            .copied().unwrap(),
        restored_tool
    );
    assert_eq!(
        destination
            .world()
            .domain.store_grant_for_agent
            .get(restored_store_grant)
            .copied().unwrap(),
        restored_agent
    );
    assert_eq!(
        destination
            .world()
            .domain.store_grant_for_store
            .get(restored_store_grant)
            .copied().unwrap(),
        restored_store
    );
}

#[test]
fn persistence_remaps_discovery_source_provenance() {
    let mut original = runtime();
    let source = original
        .spawn_discovery_source(id("source"), tenant("a"), "mcp".to_owned())
        .unwrap();
    original.world_mut().domain.sources.insert(
        source.entity(),
        DiscoverySource {
            kind: "mcp".to_owned(),
            generation: 9,
            state: DiscoveryState::Idle,
        },
    );
    original.world_mut().spawn_discovered_tool(
        id("discovered-tool"),
        tenant("a"),
        ToolCapability {
            name: "lookup".to_owned(),
            description: "discovered".to_owned(),
            parameters: json(r##"{"type": "object"}"##),
            order: 2,
            revision: 4,
            retired: false,
        },
        source.entity(),
        "remote/lookup".to_owned(),
    );

    let snapshot = original.snapshot().unwrap();
    let mut restored = runtime();
    let entities = restored.restore(snapshot).unwrap();
    let restored_source = entities.get(&id("source")).unwrap();
    let restored_tool = entities.get(&id("discovered-tool")).unwrap();
    assert_eq!(
        restored
            .world()
            .domain.sources
            .get(restored_source)
            .unwrap()
            .generation,
        9
    );
    assert_eq!(
        restored
            .world()
            .domain.discovered_from
            .get(restored_tool)
            .copied().unwrap(),
        restored_source
    );
    assert_eq!(
        restored.world().domain.discovery_keys.get(restored_tool),
        Some(&DiscoveryKey("remote/lookup".to_owned()))
    );
}

#[test]
fn conversation_memory_loads_before_model_and_persists_before_success() {
    let mut runtime = runtime();
    let model = runtime
        .spawn_model(
            id("model"),
            tenant("a"),
            ModelCapability {
                provider: "fake".to_owned(),
                model: "test".to_owned(),
                revision: 1,
                retired: false,
            },
        )
        .unwrap();
    let agent = runtime
        .spawn_agent(id("agent"), tenant("a"), Agent::default(), model)
        .unwrap();
    let store = runtime
        .spawn_store(
            id("memory"),
            tenant("a"),
            StoreCapability {
                kind: "conversation-memory".to_owned(),
                revision: 7,
                retired: false,
            },
        )
        .unwrap();
    runtime
        .grant_store(
            id("memory-grant"),
            tenant("a"),
            StoreGrant {
                order: 0,
                enabled: true,
            },
            agent,
            store,
        )
        .unwrap();
    let pending = runtime
        .handle()
        .prompt_in_conversation(agent, id("conversation"), prompt("new question"))
        .unwrap();
    runtime.run_until_stalled().unwrap();

    let load = runtime.effects().try_recv().unwrap().unwrap();
    assert_eq!(load.store_input().unwrap().decision.revision, 7);
    assert_eq!(
        load.store_input().unwrap().operation,
        StoreOperation::LoadConversation {
            conversation: id("conversation")
        }
    );
    runtime
        .world_mut()
        .domain.stores.insert(store, StoreCapability {
            kind: "conversation-memory".to_owned(),
            revision: 8,
            retired: true,
        });
    runtime
        .effects()
        .try_send(EffectCompletion {
            operation: load.operation,
            generation: load.generation,
            result: Ok(EffectOutput::Store(StoreEffectOutput::LoadedConversation(
                vec![
                    TranscriptEntry::User("old question".to_owned()),
                    TranscriptEntry::Assistant("old answer".to_owned()),
                ],
            ))),
        })
        .unwrap();
    runtime.run_until_stalled().unwrap();

    let model_request = runtime.effects().try_recv().unwrap().unwrap();
    assert_eq!(
        model_request.model_input().unwrap().history,
        vec![
            TranscriptEntry::User("old question".to_owned()),
            TranscriptEntry::Assistant("old answer".to_owned()),
            TranscriptEntry::User("new question".to_owned()),
        ]
    );
    runtime
        .effects()
        .try_send(EffectCompletion {
            operation: model_request.operation,
            generation: model_request.generation,
            result: Ok(EffectOutput::Model(ModelEffectOutput {
                assistant_message: None,
                text: "new answer".to_owned(),
                usage: Usage::default(),
                tool_calls: Vec::new(),
            })),
        })
        .unwrap();
    runtime.run_until_stalled().unwrap();

    let run = runtime.resolve_run(&pending).unwrap();
    assert!(matches!(
        runtime.world().runs.states.get(run.entity()),
        Some(RunState::WaitingStore { .. })
    ));
    let persist = runtime.effects().try_recv().unwrap().unwrap();
    assert_eq!(persist.store_input().unwrap().decision.revision, 7);
    assert_eq!(persist.store_input().unwrap().decision.store_entity, store);
    assert_eq!(
        persist.store_input().unwrap().operation,
        StoreOperation::PersistConversation {
            conversation: id("conversation"),
            entries: vec![
                TranscriptEntry::User("old question".to_owned()),
                TranscriptEntry::Assistant("old answer".to_owned()),
                TranscriptEntry::User("new question".to_owned()),
                TranscriptEntry::Assistant("new answer".to_owned()),
            ],
        }
    );
    runtime
        .effects()
        .try_send(EffectCompletion {
            operation: persist.operation,
            generation: persist.generation,
            result: Ok(EffectOutput::Store(StoreEffectOutput::Persisted)),
        })
        .unwrap();
    runtime.run_until_stalled().unwrap();
    assert!(matches!(
        runtime.world().runs.states.get(run.entity()),
        Some(RunState::Completed(_))
    ));
}

#[test]
fn conversation_persistence_failure_prevents_terminal_success() {
    let mut runtime = runtime();
    let model = runtime
        .spawn_model(
            id("model"),
            tenant("a"),
            ModelCapability {
                provider: "fake".to_owned(),
                model: "test".to_owned(),
                revision: 1,
                retired: false,
            },
        )
        .unwrap();
    let agent = runtime
        .spawn_agent(id("agent"), tenant("a"), Agent::default(), model)
        .unwrap();
    let store = runtime
        .spawn_store(
            id("memory"),
            tenant("a"),
            StoreCapability {
                kind: "conversation-memory".to_owned(),
                revision: 1,
                retired: false,
            },
        )
        .unwrap();
    runtime
        .grant_store(
            id("grant"),
            tenant("a"),
            StoreGrant {
                order: 0,
                enabled: true,
            },
            agent,
            store,
        )
        .unwrap();
    let pending = runtime
        .handle()
        .prompt_in_conversation(agent, id("conversation"), prompt("question"))
        .unwrap();
    runtime.run_until_stalled().unwrap();
    let load = runtime.effects().try_recv().unwrap().unwrap();
    runtime
        .effects()
        .try_send(EffectCompletion {
            operation: load.operation,
            generation: load.generation,
            result: Ok(EffectOutput::Store(StoreEffectOutput::LoadedConversation(
                Vec::new(),
            ))),
        })
        .unwrap();
    runtime.run_until_stalled().unwrap();
    let model_request = runtime.effects().try_recv().unwrap().unwrap();
    runtime
        .effects()
        .try_send(EffectCompletion {
            operation: model_request.operation,
            generation: model_request.generation,
            result: Ok(EffectOutput::Model(ModelEffectOutput {
                assistant_message: None,
                text: "answer".to_owned(),
                usage: Usage::default(),
                tool_calls: Vec::new(),
            })),
        })
        .unwrap();
    runtime.run_until_stalled().unwrap();
    let persist = runtime.effects().try_recv().unwrap().unwrap();
    runtime
        .effects()
        .try_send(EffectCompletion {
            operation: persist.operation,
            generation: persist.generation,
            result: Err(CanonicalError::Provider {
                message: "storage unavailable".to_owned(),
                retryable: true,
            }),
        })
        .unwrap();
    runtime.run_until_stalled().unwrap();

    let run = runtime.resolve_run(&pending).unwrap();
    assert_eq!(
        runtime.world().runs.states.get(run.entity()),
        Some(&RunState::Failed(CanonicalError::Provider {
            message: "storage unavailable".to_owned(),
            retryable: true,
        }))
    );
}

#[test]
fn invalid_snapshot_is_rejected_before_spawning_any_entities() {
    let mut runtime = runtime();
    let snapshot = DomainSnapshot {
        models: Vec::new(),
        agents: vec![PersistedAgent {
            id: id("agent"),
            tenant: tenant("a"),
            agent: Agent::default(),
            model_id: id("missing"),
            output_requirement: None,
            retrieval_requirement: None,
        }],
        ..DomainSnapshot::default()
    };
    assert_eq!(
        runtime.restore(snapshot).unwrap_err(),
        PersistenceError::MissingReference("missing".to_owned())
    );
    assert_eq!(runtime.world().stable_ids.entities().len(), 0);
}

#[test]
fn embedded_installer_uses_the_same_schedule() {
    let mut world = World::new();
    let mut installed = install_runtime(&mut world, RuntimeConfig::default(), 1).unwrap();
    assert_eq!(world.resources.runtime, Some(1));
    let tenant = tenant("embedded");
    let model = installed
        .spawn_model(
            &mut world,
            id("model"),
            tenant.clone(),
            ModelCapability {
                provider: "fake".to_owned(),
                model: "test".to_owned(),
                revision: 1,
                retired: false,
            },
        )
        .unwrap();
    let agent = installed
        .spawn_agent(&mut world, id("agent"), tenant, Agent::default(), model)
        .unwrap();
    let pending = installed.handle.prompt(agent, prompt("hello")).unwrap();
    let request = (0..4)
        .find_map(|_| {
            installed.run_schedule(&mut world);
            installed.effects.try_recv().unwrap()
        })
        .expect("embedded schedule should dispatch the model effect");
    installed
        .effects
        .try_send(EffectCompletion {
            operation: request.operation,
            generation: request.generation,
            result: Ok(EffectOutput::Model(ModelEffectOutput {
                assistant_message: None,
                text: "embedded result".to_owned(),
                usage: Usage::default(),
                tool_calls: Vec::new(),
            })),
        })
        .unwrap();
    installed.run_schedule(&mut world);
    let run = installed.resolve_run(&world, &pending).unwrap().unwrap();
    assert!(matches!(
        installed.observe_run(&mut world, run).unwrap(),
        Some(RunState::Completed(RunOutput { text, .. })) if text == "embedded result"
    ));
}

#[test]
fn hosted_ingress_notifies_the_supplied_waker() {
    let mut world = World::new();
    let mut installed = install_runtime(&mut world, RuntimeConfig::default(), 1).unwrap();
    let model = world.spawn_model(
        id("model"),
        tenant("a"),
            ModelCapability {
                provider: "fake".to_owned(),
                model: "test".to_owned(),
                revision: 1,
                retired: false,
            },
    );
    let agent = world.spawn_agent(id("agent"), tenant("a"), Agent::default(), model);
    let pending = installed
        .handle
        .prompt(
            AgentHandle {
                runtime_id: 1,
                entity: agent,
            },
            prompt("wake"),
        )
        .unwrap();
    assert_eq!(installed.handle.wakes + installed.effects.wakes, 1);
    for _ in 0..3 {
        installed.run_schedule(&mut world);
    }
    let request = installed.effects.try_recv().unwrap().unwrap();
    installed
        .effects
        .try_send_panic(request.operation, request.generation, "worker panic".to_owned())
        .unwrap();
    assert_eq!(installed.handle.wakes + installed.effects.wakes, 2);
    for _ in 0..2 {
        installed.run_schedule(&mut world);
    }
    let run = installed.resolve_run(&world, &pending).unwrap().unwrap().entity();
    assert_eq!(
        world.runs.states.get(run),
        Some(&RunState::Failed(CanonicalError::ExecutorPanicked(
            "worker panic".to_owned()
        )))
    );
}

#[test]
fn executor_shutdown_settles_new_work_as_disconnected() {
    let mut world = World::new();
    let mut installed = install_runtime(&mut world, RuntimeConfig::default(), 1).unwrap();
    let model = world.spawn_model(
        id("model"),
        tenant("a"),
            ModelCapability {
                provider: "fake".to_owned(),
                model: "test".to_owned(),
                revision: 1,
                retired: false,
            },
    );
    let agent = world.spawn_agent(id("agent"), tenant("a"), Agent::default(), model);
    installed.effects.shut_down();
    let pending = installed
        .handle
        .prompt(
            AgentHandle {
                runtime_id: 1,
                entity: agent,
            },
            prompt("shutdown"),
        )
        .unwrap();
    for _ in 0..4 {
        installed.run_schedule(&mut world);
    }
    let run = installed.resolve_run(&world, &pending).unwrap().unwrap().entity();
    assert_eq!(
        world.runs.states.get(run),
        Some(&RunState::Failed(CanonicalError::ExecutorDisconnected))
    );
}
