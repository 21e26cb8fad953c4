//! Commits of several runs at once, documents from a search, and texts of errors.

use rig_runtime::adapters::{retrieved_document, retrieved_documents};
use rig_runtime::capability::{
    Agent, ModelCapability, OutputRequirement, RetrievedDocument, ToolCapability, ToolGrant,
};
use rig_runtime::column::Entity;
use rig_runtime::debug::RunDebugError;
use rig_runtime::debug_form::{entity_form, retrieved_document_form};
use rig_runtime::effect::{
    CanonicalError, EffectCompletion, EffectOutput, EffectRequest, ModelEffectOutput,
    ModelToolCall, RunOutput, Usage,
};
use rig_runtime::extension::ExtensionEffectLifecycleError;
use rig_runtime::identity::{StableId, TenantId};
use rig_runtime::message::{Message, UserContent};
use rig_runtime::policy::ExtensionInstallError;
use rig_runtime::run::{
    AgentHandle, PendingRunHandle, PromptPayload, RunState, RuntimeConfig, RuntimeInvariantError,
};
use rig_runtime::runtime::Runtime;
use rig_runtime::transcript::prompt_payload;
use rig_runtime::world::World;

fn id(value: &str) -> StableId {
    StableId::new(value.to_owned()).unwrap()
}

fn tenant(value: &str) -> TenantId {
    TenantId::new(value.to_owned()).unwrap()
}

fn json(text: &str) -> serde_json::Value {
    serde_json::from_str(text).unwrap()
}

fn prompt(text: &str) -> PromptPayload {
    let message = Message::User {
        content: vec![UserContent::Text(text.to_owned())],
    };
    prompt_payload(&message, Ok(serde_json::Value::Null)).unwrap()
}

fn with_tool() -> (Runtime, AgentHandle) {
    let mut runtime = Runtime::new(RuntimeConfig::default(), 1).unwrap();
    let model = runtime
        .spawn_model(
            id("model"),
            tenant("a"),
            ModelCapability {
                provider: "fake".to_owned(),
                model: "test".to_owned(),
                revision: 1,
                retired: false,
            },
        )
        .unwrap();
    let agent = runtime
        .spawn_agent(id("agent"), tenant("a"), Agent::default(), model)
        .unwrap();
    let tool = runtime
        .spawn_tool(
            id("tool"),
            tenant("a"),
            ToolCapability {
                name: "lookup".to_owned(),
                description: String::new(),
                parameters: json("{}"),
                order: 0,
                revision: 1,
                retired: false,
            },
        )
        .unwrap();
    runtime
        .grant_tool(
            id("grant"),
            tenant("a"),
            ToolGrant {
                order: 0,
                enabled: true,
            },
            agent,
            tool,
        )
        .unwrap();
    (runtime, agent)
}

fn call(id: &str, name: &str) -> ModelToolCall {
    ModelToolCall {
        id: id.to_owned(),
        provider_result_id: id.to_owned(),
        provider_call_id: None,
        name: name.to_owned(),
        arguments: json("{}"),
    }
}

fn answer(
    runtime: &mut Runtime,
    request: &EffectRequest,
    text: &str,
    tool_calls: Vec<ModelToolCall>,
) {
    runtime
        .effects()
        .try_send(EffectCompletion {
            operation: request.operation,
            generation: request.generation,
            result: Ok(EffectOutput::Model(ModelEffectOutput {
                assistant_message: None,
                text: text.to_owned(),
                usage: Usage::default(),
                tool_calls,
            })),
        })
        .unwrap();
}

fn state(runtime: &Runtime, pending: &PendingRunHandle) -> RunState {
    let run = runtime.resolve_run(pending).unwrap();
    runtime.world().runs.states.get(run.entity()).unwrap().clone()
}

#[test]
fn runs_that_are_committed_together_do_not_disturb_each_other() {
    let (mut runtime, agent) = with_tool();
    let repeating = runtime.handle().prompt(agent, prompt("repeat")).unwrap();
    let guessing = runtime.handle().prompt(agent, prompt("guess")).unwrap();
    let plain = runtime.handle().prompt(agent, prompt("plain")).unwrap();
    let calling = runtime.handle().prompt(agent, prompt("call")).unwrap();
    runtime.run_until_stalled().unwrap();
    let mut requests = Vec::new();
    while let Some(request) = runtime.effects().try_recv().unwrap() {
        requests.push(request);
    }
    assert_eq!(requests.len(), 4);
    answer(
        &mut runtime,
        &requests[0],
        "",
        vec![call("same", "lookup"), call("same", "lookup")],
    );
    answer(
        &mut runtime,
        &requests[1],
        "",
        vec![call("one", "lookup"), call("two", "missing")],
    );
    answer(&mut runtime, &requests[2], "fine", Vec::new());
    answer(&mut runtime, &requests[3], "", vec![call("one", "lookup")]);
    runtime.run_until_stalled().unwrap();
    assert_eq!(
        state(&runtime, &repeating),
        RunState::Failed(CanonicalError::DuplicateToolCall("same".to_owned()))
    );
    assert_eq!(
        state(&runtime, &guessing),
        RunState::Failed(CanonicalError::UnknownTool("missing".to_owned()))
    );
    assert_eq!(
        state(&runtime, &plain),
        RunState::Completed(RunOutput {
            text: "fine".to_owned(),
            usage: Usage::default(),
        })
    );
    assert!(matches!(
        state(&runtime, &calling),
        RunState::WaitingTools { .. }
    ));
    let run = runtime.resolve_run(&repeating).unwrap();
    assert_eq!(runtime.run_committed_turns(run), Vec::new());
    let run = runtime.resolve_run(&guessing).unwrap();
    assert_eq!(runtime.run_committed_turns(run).len(), 1);
    assert!(runtime.effects().try_recv().unwrap().is_some());
    assert_eq!(runtime.effects().try_recv().unwrap(), None);
}

#[test]
fn a_refused_schema_fails_its_run_only() {
    let (mut runtime, agent) = with_tool();
    let world = runtime.world_mut();
    world.domain.output_requirements.insert(
        agent.entity(),
        OutputRequirement {
            schema: json(r#"{"type": "no such type"}"#),
        },
    );
    let pending = runtime.handle().prompt(agent, prompt("hello")).unwrap();
    runtime.run_until_stalled().unwrap();
    let request = runtime.effects().try_recv().unwrap().unwrap();
    answer(&mut runtime, &request, "{}", Vec::new());
    runtime.run_until_stalled().unwrap();
    assert!(matches!(
        state(&runtime, &pending),
        RunState::Failed(CanonicalError::InvalidStructuredOutput(message))
            if message.starts_with("invalid output schema: ")
    ));
    let run = runtime.resolve_run(&pending).unwrap();
    assert_eq!(runtime.run_committed_turns(run).len(), 1);
}

#[test]
fn the_last_entity_number_is_given_out_again() {
    let mut world = World::new();
    world.next = u64::MAX - 1;
    assert_eq!(world.reserve(), Entity(u64::MAX - 1));
    assert_eq!(world.reserve(), Entity(u64::MAX));
    assert_eq!(world.reserve(), Entity(u64::MAX));
}

#[test]
fn documents_hold_the_indented_text_of_what_was_found() {
    let documents = retrieved_documents(vec![
        ("first".to_owned(), json(r#"{"a":[1]}"#)),
        ("second".to_owned(), json(r#""text""#)),
    ]);
    assert_eq!(
        documents,
        vec![
            RetrievedDocument::new(
                "first".to_owned(),
                "{\n  \"a\": [\n    1\n  ]\n}".to_owned()
            ),
            RetrievedDocument::new("second".to_owned(), "\"text\"".to_owned()),
        ]
    );
    assert_eq!(retrieved_documents(Vec::new()), Vec::new());
}

#[test]
fn documents_without_an_indented_text_hold_the_compact_one() {
    let value = json(r#"{ "a": 1 }"#);
    assert_eq!(
        retrieved_document("x".to_owned(), None, &value).text,
        r#"{"a":1}"#
    );
    assert_eq!(
        retrieved_document("x".to_owned(), Some("y".to_owned()), &value).text,
        "y"
    );
}

#[test]
fn metadata_is_shown_in_the_order_of_its_keys() {
    let mut document = RetrievedDocument::new("d".to_owned(), "t".to_owned());
    document.metadata.insert("b".to_owned(), "2".to_owned());
    document.metadata.insert("a".to_owned(), "1".to_owned());
    assert_eq!(
        retrieved_document_form(&document),
        r#"RetrievedDocument { id: "d", text: "t", metadata: {"a": "1", "b": "2"} }"#
    );
    assert_eq!(document.clone(), document);
}

#[test]
fn entities_are_shown_by_their_number() {
    assert_eq!(entity_form(Entity(7)), "7v0");
    assert_eq!(entity_form(Entity::placeholder()), "PLACEHOLDER");
}

#[test]
fn extension_effect_errors_have_texts() {
    assert_eq!(
        ExtensionEffectLifecycleError::RuntimeNotInstalled.text(),
        "target world has no installed runtime"
    );
    assert_eq!(
        ExtensionEffectLifecycleError::NotRun.text(),
        "extension effect owner is not a runtime run"
    );
    assert_eq!(
        ExtensionEffectLifecycleError::DuplicateStableId("x".to_owned()).text(),
        "stable id `x` already exists"
    );
    assert_eq!(
        ExtensionEffectLifecycleError::WrongKind("mail".to_owned()).text(),
        "operation is not extension effect kind `mail`"
    );
    assert_eq!(
        ExtensionEffectLifecycleError::InvalidPhase.text(),
        "invalid extension effect phase transition"
    );
    assert_eq!(
        ExtensionEffectLifecycleError::StaleGeneration {
            expected: 12,
            received: 3,
        }
        .text(),
        "stale extension effect generation: expected 12, received 3"
    );
}

#[test]
fn invariant_errors_have_texts() {
    assert_eq!(
        RuntimeInvariantError::DuplicateStableId("x".to_owned()).text(),
        "duplicate stable id `x`"
    );
    assert_eq!(
        RuntimeInvariantError::InvalidRelationship {
            entity: Entity(1),
            relationship: "RunOf",
            target: Entity(2),
        }
        .text(),
        "RunOf on 1v0 points at invalid target 2v0"
    );
    assert_eq!(
        RuntimeInvariantError::RelationshipTenantMismatch {
            entity: Entity(1),
            relationship: "RunOf",
        }
        .text(),
        "RunOf on 1v0 crosses tenant scope"
    );
}

#[test]
fn installation_errors_have_texts() {
    assert_eq!(
        ExtensionInstallError::RuntimeNotInstalled.text(),
        "Rig runtime is not installed in this world"
    );
    assert_eq!(
        ExtensionInstallError::DuplicateStableId("x".to_owned()).text(),
        "duplicate stable id `x`"
    );
    assert_eq!(
        ExtensionInstallError::StaleAgent(Entity(4)).text(),
        "policy target 4v0 is not a live agent"
    );
    assert_eq!(
        ExtensionInstallError::TenantMismatch.text(),
        "policy and target agent cross tenant scope"
    );
}

#[test]
fn inspection_errors_have_texts() {
    assert_eq!(
        RunDebugError::ForeignRuntime.text(),
        "run handle belongs to another runtime"
    );
    assert_eq!(RunDebugError::StaleRun.text(), "run is stale");
    assert_eq!(RunDebugError::StaleOperation.text(), "operation is stale");
}
