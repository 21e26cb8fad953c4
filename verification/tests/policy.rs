//! Policies, extensions and diagnostics.

use rig_runtime::capability::{
    Agent, ModelCapability, Policy, PolicyPoint, PolicyRule, RequestPatch,
};
use rig_runtime::control::{
    AgentControl, InvalidToolCallBudget, PauseMode, ReadyAt, RunControl, RunPriority,
    StructuredOutputRetryBudget,
};
use rig_runtime::debug::{
    escape_dot_label, AcceptedPolicyDebug, RunDebugError, StalledReason,
};
use rig_runtime::debug_form::{effect_output_form, operation_phase_form};
use rig_runtime::effect::{
    CanonicalError, EffectOutput, ModelEffectOutput, ModelToolCall, OperationOutcome,
    OperationPhase, StoreEffectOutput, Usage,
};
use rig_runtime::extension::{
    dispatch_extension_effect, settle_extension_effect, spawn_extension_effect, EcsEffect,
    ExtensionEffectLifecycleError, ExtensionEffects,
};
use rig_runtime::identity::{IdentityError, StableId, TenantId};
use rig_runtime::message::{Message, UserContent};
use rig_runtime::policy::{
    ExtensionInstallError, PolicyCapabilities, PolicyResponderId, PolicyStatus,
    RequestPatchPolicyBundle, RigExtension, ToolApprovalPolicyBundle,
};
use rig_runtime::run::{AgentHandle, PromptPayload, RunHandle, RunState, RuntimeConfig};
use rig_runtime::runtime::Runtime;
use rig_runtime::transcript::prompt_payload;
use rig_runtime::world::World;

fn id(value: &str) -> StableId {
    StableId::new(value.to_owned()).unwrap()
}

fn tenant() -> TenantId {
    TenantId::new("debug".to_owned()).unwrap()
}

fn prompt(text: &str) -> PromptPayload {
    let message = Message::User {
        content: vec![UserContent::Text(text.to_owned())],
    };
    prompt_payload(&message, Ok(serde_json::Value::Null)).unwrap()
}

fn runtime_with_agent() -> (Runtime, AgentHandle) {
    let mut runtime = Runtime::new(RuntimeConfig::default(), 1).unwrap();
    let model = runtime
        .spawn_model(
            id("model"),
            tenant(),
            ModelCapability {
                provider: "fake".to_owned(),
                model: "debug".to_owned(),
                revision: 1,
                retired: false,
            },
        )
        .unwrap();
    let agent = runtime
        .spawn_agent(id("agent"), tenant(), Agent::default(), model)
        .unwrap();
    (runtime, agent)
}

fn started() -> (Runtime, RunHandle) {
    let (mut runtime, agent) = runtime_with_agent();
    let pending = runtime.handle().prompt(agent, prompt("hello")).unwrap();
    runtime.run_until_stalled().unwrap();
    let run = runtime.resolve_run(&pending).unwrap();
    (runtime, run)
}

#[test]
fn diagnostics_explain_waiting_effect_and_accepted_policy() {
    let (mut runtime, agent) = runtime_with_agent();
    runtime
        .spawn_policy(
            id("request-policy"),
            tenant(),
            Policy {
                order: 4,
                revision: 7,
                rule: PolicyRule::PatchRequest(
                    RequestPatch::new().instructions("debugged".to_owned()),
                ),
            },
            agent,
        )
        .unwrap();

    let pending = runtime.handle().prompt(agent, prompt("hello")).unwrap();
    runtime.run_until_stalled().unwrap();
    let effect = runtime.effects().try_recv().unwrap().unwrap();
    let run = runtime.resolve_run(&pending).unwrap();
    let child = runtime.world_mut().reserve();
    let world = runtime.world_mut();
    world.stable_ids.insert(child, id("child\\\"\nrun"));
    world.tenants.insert(child, tenant());
    world.runs.states.insert(child, RunState::Queued);
    world.controls.parents.insert(child, run.entity());
    let explanation = runtime.explain_run(run).unwrap();

    assert!(!explanation.run_id.as_str().is_empty());
    assert_eq!(explanation.agent_id.as_str(), "agent");
    assert_eq!(explanation.operations.len(), 1);
    assert!(matches!(
        explanation.stalled_reason,
        StalledReason::WaitingForEffect(_)
    ));
    assert_eq!(
        runtime.accepted_policies(effect.operation).unwrap(),
        vec![AcceptedPolicyDebug {
            id: id("request-policy"),
            revision: 7,
            order: 4,
            point: PolicyPoint::Request,
        }]
    );
    let dot = runtime.dump_run_graph(run).unwrap();
    assert!(dot.contains(explanation.run_id.as_str()));
    assert!(dot.contains(explanation.operations[0].id.as_str()));
    assert!(dot.contains("child\\\\\\\"\\nrun"));
    assert!(dot.contains("[label=\"child\"]"));
}

#[test]
fn graphs_show_the_run_and_its_operation() {
    let (runtime, run) = started();
    let operation = runtime.pending_effects(run).unwrap().remove(0);
    assert_eq!(operation.kind, "Model");
    assert_eq!(operation.phase, "InFlight");
    let id = operation.id.as_str();
    let RunState::WaitingModel { operation: waiting } =
        runtime.world().runs.states.get(run.entity()).unwrap().clone()
    else {
        panic!("expected a waiting run");
    };
    let number = waiting.0;
    assert_eq!(
        runtime.dump_run_graph(run).unwrap(),
        format!(
            "digraph rig_run {{\n  \"run-1-1\" [shape=box,label=\"run run-1-1\\nWaitingModel {{ operation: {number}v0 }}\"];\n  \"{id}\" [label=\"Model\\nInFlight\"];\n  \"run-1-1\" -> \"{id}\";\n}}\n"
        )
    );
}

#[test]
fn inspection_refuses_foreign_and_stale_entities() {
    let (runtime, run) = started();
    let mut foreign = run;
    foreign.runtime_id = 2;
    assert_eq!(
        runtime.explain_run(foreign),
        Err(RunDebugError::ForeignRuntime)
    );
    let mut stale = run;
    stale.entity = rig_runtime::column::Entity::placeholder();
    assert_eq!(runtime.stalled_reason(stale), Err(RunDebugError::StaleRun));
    assert_eq!(
        runtime.accepted_policies(stale.entity),
        Err(RunDebugError::StaleOperation)
    );
}

#[test]
fn stalls_are_explained() {
    let (mut runtime, run) = started();
    runtime
        .world_mut()
        .controls
        .controls
        .insert(run.entity(), RunControl::Paused(PauseMode::Drain));
    assert_eq!(
        runtime.stalled_reason(run),
        Ok(StalledReason::Paused("Paused(Drain)".to_owned()))
    );
    let child = runtime.world_mut().reserve();
    let world = runtime.world_mut();
    world.controls.controls.insert(run.entity(), RunControl::Running);
    world.stable_ids.insert(child, id("child"));
    world.controls.parents.insert(child, run.entity());
    world.controls.waiting_for_children.insert(run.entity(), true);
    assert_eq!(
        runtime.stalled_reason(run),
        Ok(StalledReason::WaitingForChildren(vec![id("child")]))
    );
    let world = runtime.world_mut();
    world.controls.waiting_for_children.remove(run.entity());
    world.set_run_state(run.entity(), RunState::Failed(CanonicalError::Timeout));
    assert_eq!(
        runtime.stalled_reason(run),
        Ok(StalledReason::Terminal("failed".to_owned()))
    );
}

#[test]
fn labels_are_escaped() {
    assert_eq!(
        escape_dot_label("a\\b\"c\r\nd"),
        "a\\\\b\\\"c\\r\\nd".to_owned()
    );
}

#[test]
fn capabilities_are_sorted_and_distinct() {
    let capabilities = PolicyCapabilities::new(vec![
        PolicyPoint::TextDelta,
        PolicyPoint::Request,
        PolicyPoint::TextDelta,
    ]);
    assert_eq!(
        capabilities.points(),
        &vec![PolicyPoint::Request, PolicyPoint::TextDelta]
    );
    assert!(capabilities.contains(PolicyPoint::TextDelta));
    assert!(!capabilities.contains(PolicyPoint::ToolCall));
    assert_eq!(PolicyPoint::InvalidToolCall.as_str(), "invalid-tool-call");
    assert_eq!(
        capabilities,
        PolicyCapabilities::new(vec![PolicyPoint::TextDelta, PolicyPoint::Request])
    );
}

#[test]
fn responder_ids_are_not_blank() {
    assert_eq!(
        PolicyResponderId::new(" \t".to_owned()),
        Err(IdentityError::Empty)
    );
    assert_eq!(
        PolicyResponderId::new("responder".to_owned()).unwrap().as_str(),
        "responder"
    );
    assert_eq!(
        PolicyResponderId::generated("made".to_owned()).as_str(),
        "made"
    );
}

#[test]
fn retired_policies_take_no_part() {
    let (mut runtime, agent) = runtime_with_agent();
    let policy = runtime
        .spawn_policy(
            id("deny"),
            tenant(),
            Policy {
                order: 0,
                revision: 1,
                rule: PolicyRule::DenyPromptContains("hello".to_owned()),
            },
            agent,
        )
        .unwrap();
    runtime
        .world_mut()
        .domain
        .policy_status
        .insert(policy, PolicyStatus::Retired);
    runtime.handle().prompt(agent, prompt("hello")).unwrap();
    runtime.run_until_stalled().unwrap();
    let effect = runtime.effects().try_recv().unwrap().unwrap();
    assert!(runtime.accepted_policies(effect.operation).unwrap().is_empty());
}

#[test]
fn policies_of_other_points_do_not_govern_requests() {
    let (mut runtime, agent) = runtime_with_agent();
    let bundle = ToolApprovalPolicyBundle::new(
        id("approval"),
        tenant(),
        agent.entity(),
        1,
        1,
        "may it?".to_owned(),
    );
    bundle.install(runtime.world_mut()).unwrap();
    runtime.handle().prompt(agent, prompt("hello")).unwrap();
    runtime.run_until_stalled().unwrap();
    let effect = runtime.effects().try_recv().unwrap().unwrap();
    assert!(runtime.accepted_policies(effect.operation).unwrap().is_empty());
}

#[test]
fn refused_installations_leave_the_world_alone() {
    let (mut runtime, agent) = runtime_with_agent();
    let bundle = |policy: &str, owner: TenantId, agent| {
        RequestPatchPolicyBundle::new(
            id(policy),
            owner,
            agent,
            0,
            1,
            RequestPatch::new().max_tokens(5),
        )
    };
    let entity = agent.entity();
    assert_eq!(
        bundle("p", tenant(), entity).install(&mut World::new()),
        Err(ExtensionInstallError::RuntimeNotInstalled)
    );
    let world = runtime.world_mut();
    assert_eq!(
        bundle("agent", tenant(), entity).install(world),
        Err(ExtensionInstallError::DuplicateStableId("agent".to_owned()))
    );
    let missing = rig_runtime::column::Entity::placeholder();
    assert_eq!(
        bundle("p", tenant(), missing).install(world),
        Err(ExtensionInstallError::StaleAgent(missing))
    );
    let other = TenantId::new("other".to_owned()).unwrap();
    assert_eq!(
        bundle("p", other, entity).install(world),
        Err(ExtensionInstallError::TenantMismatch)
    );
    assert_eq!(world.domain.policies.entities().len(), 0);
    assert_eq!(bundle("p", tenant(), entity).install(world), Ok(()));
    assert_eq!(world.domain.policies.entities().len(), 1);
}

#[derive(Debug)]
struct Mail;

impl EcsEffect for Mail {
    type Input = String;
    type Output = u32;
    type Error = String;

    fn kind() -> String {
        "mail".to_owned()
    }
}

#[derive(Debug)]
struct Fax;

impl EcsEffect for Fax {
    type Input = String;
    type Output = u32;
    type Error = String;

    fn kind() -> String {
        "fax".to_owned()
    }
}

#[test]
fn extension_effects_settle_once() {
    let (mut runtime, run) = started();
    let mut mail = ExtensionEffects::<Mail>::new();
    let fax = ExtensionEffects::<Fax>::new();
    let world = runtime.world_mut();
    let operation = spawn_extension_effect(
        world,
        &mut mail,
        run.entity(),
        id("letter"),
        "dear".to_owned(),
    )
    .unwrap();
    assert_eq!(
        settle_extension_effect(world, &mut mail, operation, 0, Ok(1)),
        Err(ExtensionEffectLifecycleError::InvalidPhase)
    );
    assert_eq!(
        dispatch_extension_effect(world, &fax, operation),
        Err(ExtensionEffectLifecycleError::WrongKind("fax".to_owned()))
    );
    let (generation, input) = dispatch_extension_effect(world, &mail, operation).unwrap();
    assert_eq!(generation, 0);
    assert_eq!(input, "dear");
    assert_eq!(
        dispatch_extension_effect(world, &mail, operation),
        Err(ExtensionEffectLifecycleError::InvalidPhase)
    );
    assert_eq!(
        settle_extension_effect(world, &mut mail, operation, 3, Ok(1)),
        Err(ExtensionEffectLifecycleError::StaleGeneration {
            expected: 0,
            received: 3
        })
    );
    settle_extension_effect(world, &mut mail, operation, 0, Ok(7)).unwrap();
    assert_eq!(mail.results.get(operation).unwrap().0, Ok(7));
    assert_eq!(
        world.operations.states.get(operation).unwrap().phase,
        OperationPhase::ExtensionSettled
    );
    assert_eq!(
        settle_extension_effect(world, &mut mail, operation, 0, Ok(8)),
        Err(ExtensionEffectLifecycleError::InvalidPhase)
    );
    assert_eq!(mail.results.get(operation).unwrap().0, Ok(7));
}

#[test]
fn extension_effects_belong_to_runs() {
    let (mut runtime, run) = started();
    let mut mail = ExtensionEffects::<Mail>::new();
    assert_eq!(
        spawn_extension_effect(
            &mut World::new(),
            &mut mail,
            run.entity(),
            id("letter"),
            String::new()
        ),
        Err(ExtensionEffectLifecycleError::RuntimeNotInstalled)
    );
    let world = runtime.world_mut();
    let missing = rig_runtime::column::Entity::placeholder();
    assert_eq!(
        spawn_extension_effect(world, &mut mail, missing, id("letter"), String::new()),
        Err(ExtensionEffectLifecycleError::NotRun)
    );
    assert_eq!(
        spawn_extension_effect(world, &mut mail, run.entity(), id("agent"), String::new()),
        Err(ExtensionEffectLifecycleError::DuplicateStableId(
            "agent".to_owned()
        ))
    );
    let operation =
        spawn_extension_effect(world, &mut mail, run.entity(), id("letter"), String::new())
            .unwrap();
    assert_eq!(world.tenants.get(operation), Some(&tenant()));
}

#[test]
fn controls_have_defaults() {
    assert_eq!(RunControl::default(), RunControl::Running);
    assert_eq!(AgentControl::default(), AgentControl::Running);
    assert_eq!(InvalidToolCallBudget::default().max_retries, 0);
    assert_eq!(StructuredOutputRetryBudget::default().max_retries, 1);
    assert_eq!(RunPriority::default(), RunPriority(0));
    assert_eq!(ReadyAt::default(), ReadyAt(0));
    assert!(RunPriority(2) > RunPriority(-1));
}

fn patch_policy(runtime: &mut Runtime, agent: AgentHandle, name: &str, order: u32, patch: RequestPatch) {
    runtime
        .spawn_policy(
            id(name),
            tenant(),
            Policy {
                order,
                revision: 1,
                rule: PolicyRule::PatchRequest(patch),
            },
            agent,
        )
        .unwrap();
}

fn json(text: &str) -> serde_json::Value {
    serde_json::from_str(text).unwrap()
}

#[test]
fn request_patches_are_reduced_in_policy_order() {
    let (mut runtime, agent) = runtime_with_agent();
    for (order, name) in ["one", "two", "three"].into_iter().enumerate() {
        let tool = runtime
            .spawn_tool(
                id(name),
                tenant(),
                rig_runtime::capability::ToolCapability {
                    name: name.to_owned(),
                    description: String::new(),
                    parameters: json("{}"),
                    order: order as u32,
                    revision: 1,
                    retired: false,
                },
            )
            .unwrap();
        let grant = rig_runtime::capability::ToolGrant {
            order: 0,
            enabled: true,
        };
        runtime
            .grant_tool(id(&format!("{name}-grant")), tenant(), grant, agent, tool)
            .unwrap();
    }
    let document = |name: &str| rig_runtime::capability::RetrievedDocument {
        id: name.to_owned(),
        text: String::new(),
        metadata: Default::default(),
    };
    let later = RequestPatch::new()
        .instructions("later".to_owned())
        .active_tools(vec!["two".to_owned(), "three".to_owned()])
        .additional_params(json(r#"{"b": 3, "c": 4}"#))
        .extra_context(vec![document("second")])
        .history(vec![rig_runtime::effect::TranscriptEntry::Assistant(
            "before".to_owned(),
        )]);
    let earlier = RequestPatch::new()
        .instructions("earlier".to_owned())
        .max_tokens(9)
        .active_tools(vec!["one".to_owned(), "two".to_owned()])
        .additional_params(json(r#"{"a": 1, "b": 2}"#))
        .extra_context(vec![document("first")]);
    patch_policy(&mut runtime, agent, "z", 1, later);
    patch_policy(&mut runtime, agent, "y", 0, earlier);
    runtime.handle().prompt(agent, prompt("hello")).unwrap();
    runtime.run_until_stalled().unwrap();
    let request = runtime.effects().try_recv().unwrap().unwrap();
    let input = request.model_input().unwrap();
    assert_eq!(input.instructions, "later");
    assert_eq!(input.max_tokens, Some(9));
    assert_eq!(input.additional_params, Some(json(r#"{"a": 1, "b": 3, "c": 4}"#)));
    let tools = input.tools.iter().map(|tool| tool.name.as_str()).collect::<Vec<_>>();
    assert_eq!(tools, ["two"]);
    let documents = input.documents.iter().map(|d| d.id.as_str()).collect::<Vec<_>>();
    assert_eq!(documents, ["first", "second"]);
    assert_eq!(
        input.history,
        vec![
            rig_runtime::effect::TranscriptEntry::Assistant("before".to_owned()),
            rig_runtime::effect::TranscriptEntry::User("hello".to_owned()),
        ]
    );
}

#[test]
fn later_parameters_that_are_no_object_replace_earlier_ones() {
    let merged = RequestPatch::new()
        .additional_params(json(r#"{"a": 1}"#))
        .reduce(RequestPatch::new().additional_params(json("7")));
    assert_eq!(merged.additional_params, Some(json("7")));
    let kept = RequestPatch::new()
        .additional_params(json("7"))
        .reduce(RequestPatch::new());
    assert_eq!(kept.additional_params, Some(json("7")));
}

#[test]
fn effect_stores_have_the_kind_of_their_effect() {
    assert_eq!(ExtensionEffects::<Mail>::new().kind, "mail");
    assert_eq!(ExtensionEffects::<Fax>::new().kind, "fax");
}

#[test]
fn capability_sets_can_be_copied() {
    let capabilities = PolicyCapabilities::new(vec![PolicyPoint::Request]);
    assert_eq!(capabilities.clone(), capabilities);
    assert!(PolicyCapabilities::default().points().is_empty());
}

#[test]
fn states_and_phases_are_described_in_full() {
    let (mut runtime, run) = started();
    let request = runtime.effects().try_recv().unwrap().unwrap();
    runtime
        .effects()
        .try_send(rig_runtime::effect::EffectCompletion {
            operation: request.operation,
            generation: request.generation,
            result: Err(CanonicalError::Provider {
                message: "a \"quoted\"\nreason".to_owned(),
                retryable: true,
            }),
        })
        .unwrap();
    runtime.run_until_stalled().unwrap();
    let explanation = runtime.explain_run(run).unwrap();
    let error = "Provider { message: \"a \\\"quoted\\\"\\nreason\", retryable: true }";
    assert_eq!(explanation.state, format!("Failed({error})"));
    assert_eq!(
        explanation.operations[0].phase,
        format!("Settled(Failure({error}))")
    );
}

#[test]
fn outputs_are_described_in_full() {
    let output = EffectOutput::Model(ModelEffectOutput {
        assistant_message: Some(json("null")),
        text: "t".to_owned(),
        usage: Usage {
            input_tokens: 1,
            output_tokens: 2,
        },
        tool_calls: vec![ModelToolCall {
            id: "i".to_owned(),
            provider_result_id: "r".to_owned(),
            provider_call_id: None,
            name: "n".to_owned(),
            arguments: json(r#"{"a": [1]}"#),
        }],
    });
    assert_eq!(effect_output_form(&output), format!("{output:?}"));
    let mut document = rig_runtime::capability::RetrievedDocument {
        id: "d".to_owned(),
        text: String::new(),
        metadata: Default::default(),
    };
    document.metadata.insert("k".to_owned(), "v".to_owned());
    let phase = OperationPhase::Settled(OperationOutcome::Success(EffectOutput::Store(
        StoreEffectOutput::Retrieved(vec![document.clone(), document]),
    )));
    assert_eq!(operation_phase_form(&phase), format!("{phase:?}"));
}
