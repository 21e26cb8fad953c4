//! Executors, model responses and the driver of a local agent.

use rig_runtime::adapters::{argument_diagnostic, delta_failure, tool_failure_output};
use rig_runtime::builder::{LocalModelAgent, LocalModelAgentBuilder, StructuredOutputMode};
use rig_runtime::capability::{
    ModelCapability, StoreCapability, StoreGrant, ToolCapability,
};
use rig_runtime::column::Entity;
use rig_runtime::correlate::{route_effect, route_tool, EffectRoute};
use rig_runtime::drive::StreamProgress;
use rig_runtime::driver::{
    batch_events, conclude_round, forward_item, settle_batch, FeedProgress, ModelStream, Round,
    RoundStep, ToolRequest,
};
use rig_runtime::effect::{
    CanonicalError, DiscoveryEffectInput, DiscoveryEffectOutput, EffectCompletion, EffectIngress, EffectInput,
    EffectOutput, EffectRequest, ModelDecision, ModelEffectInput, ModelToolCall, RunOutput,
    StoreDecision, StoreEffectInput, StoreEffectOutput, StoreOperation, ToolDecision,
    ToolEffectInput, ToolEffectOutput, ToolErrorKind, TranscriptEntry, Usage,
};
use rig_runtime::error_text::local_prompt_error;
use rig_runtime::executor::{
    CompletionModelAdapter, DiscoveryAdapter, EncodedContent, EncodedOutput, ExecutorKey,
    ModelResponse, StoreAdapter, ToolAdapter, ToolExecutionError, ToolOutcome,
};
use rig_runtime::handle::PromptOptions;
use rig_runtime::identity::{IdentityError, StableId, TenantId};
use rig_runtime::message::{
    AssistantContent, CompletionUsage, DecodedEntry, Message, NormalizedOutput, Reasoning,
    ToolCall, ToolFunction, ToolResultContent, UserContent,
};
use rig_runtime::normalize::{normalize_model_output, preserve_output};
use rig_runtime::report::{
    LocalAgentError, LocalRunResult, LocalStreamEvent, MultiTurnStreamItem, PromptError,
    StreamedAssistantContent,
};
use rig_runtime::response::{
    run_response, stream_item, AgentPromptRequest, StreamingPromptRequest,
};
use rig_runtime::run::{
    DriveError, EffectIoError, PromptPayload, RunState, RuntimeConfig, SpawnError, SubmitError,
};
use rig_runtime::runtime::Runtime;
use rig_runtime::transcript::{
    assemble_request, completion_request, prompt_payload, response_messages, transcript_messages,
};

fn id(value: &str) -> StableId {
    StableId::new(value.to_owned()).unwrap()
}

fn tenant(value: &str) -> TenantId {
    TenantId::new(value.to_owned()).unwrap()
}

fn json(text: &str) -> serde_json::Value {
    serde_json::from_str(text).unwrap()
}

fn user(text: &str) -> Message {
    Message::User {
        content: vec![UserContent::Text(text.to_owned())],
    }
}

fn prompt(text: &str) -> PromptPayload {
    prompt_payload(&user(text), Ok(json(r#"{"role":"user"}"#))).unwrap()
}

fn call(id: &str, name: &str, arguments: &str) -> ToolCall {
    ToolCall {
        id: id.to_owned(),
        call_id: None,
        function: ToolFunction {
            name: name.to_owned(),
            arguments: json(arguments),
        },
    }
}

fn usage(input_tokens: u64, output_tokens: u64, total_tokens: u64) -> CompletionUsage {
    CompletionUsage {
        input_tokens,
        output_tokens,
        total_tokens,
    }
}

fn response(content: Vec<AssistantContent>) -> ModelResponse {
    ModelResponse {
        content,
        usage: CompletionUsage::default(),
        message_id: None,
    }
}

fn text_response(text: &str) -> ModelResponse {
    response(vec![AssistantContent::Text(text.to_owned())])
}

fn tool_response(call: ToolCall) -> ModelResponse {
    response(vec![AssistantContent::ToolCall(call)])
}

fn capability(name: &str, order: u32) -> ToolCapability {
    ToolCapability {
        name: name.to_owned(),
        description: "adds integers".to_owned(),
        parameters: json(r#"{"type":"object"}"#),
        order,
        revision: 1,
        retired: false,
    }
}

fn input() -> ModelEffectInput {
    ModelEffectInput {
        decision: ModelDecision {
            model_entity: Entity::placeholder(),
            model_id: id("model"),
            revision: 3,
            provider: "mock".to_owned(),
            model: "mock-3".to_owned(),
            tenant: tenant("tenant"),
        },
        instructions: "system".to_owned(),
        prompt: json(r#"{"role":"user","content":[{"type":"text","text":"question"}]}"#),
        prompt_text: Some("question".to_owned()),
        history: vec![
            TranscriptEntry::User("question".to_owned()),
            TranscriptEntry::Assistant(String::new()),
            TranscriptEntry::AssistantToolCall {
                call_id: "call-1".to_owned(),
                name: "lookup".to_owned(),
                arguments: json(r#"{"id": 7}"#),
            },
            TranscriptEntry::ToolResult {
                call_id: "call-1".to_owned(),
                provider_result_id: "call-1".to_owned(),
                provider_call_id: None,
                name: "lookup".to_owned(),
                raw: serde_json::Value::Null,
                content: "result".to_owned(),
            },
        ],
        tools: vec![ToolDecision {
            tool_entity: Entity::placeholder(),
            tool_id: id("tool"),
            revision: 4,
            name: "lookup".to_owned(),
            description: "look up an id".to_owned(),
            parameters: json(
                r#"{"type":"object","properties":{"id":{"type":"integer"}},"required":["id"]}"#,
            ),
            order: 0,
        }],
        tool_results: Vec::new(),
        output_schema: None,
        terminal_tool: None,
        documents: Vec::new(),
        temperature_bits: None,
        max_tokens: None,
        tool_choice: None,
        additional_params: None,
    }
}

fn nothing(n: usize) -> Vec<DecodedEntry> {
    (0..n).map(|_| DecodedEntry::Nothing).collect()
}

fn tool_input(decision: ToolDecision, call_id: &str, arguments: &str) -> ToolEffectInput {
    ToolEffectInput {
        decision,
        call_id: call_id.to_owned(),
        provider_result_id: call_id.to_owned(),
        provider_call_id: None,
        arguments: json(arguments),
        index: 0,
    }
}

fn add_decision(revision: u64) -> ToolDecision {
    let mut decision = input().tools.remove(0);
    decision.tool_id = id("add");
    decision.revision = revision;
    decision.name = "add".to_owned();
    decision
}

/// Adds the two integers of the arguments.
fn add(input: &ToolEffectInput) -> ToolOutcome {
    let sum = input.arguments["left"].as_i64().unwrap() + input.arguments["right"].as_i64().unwrap();
    ToolOutcome::Completed(EncodedOutput {
        presentation: sum.to_string(),
        raw: EncodedContent::Encoded(json(&format!(r#"[{{"type":"json","value":{sum}}}]"#))),
    })
}

/// Runs a prompt to its end, with the given model responses and one function for all tools.
fn run(
    agent: &mut LocalModelAgent,
    text: &str,
    mut responses: Vec<ModelResponse>,
    tool: &dyn Fn(&ToolEffectInput) -> Result<ToolOutcome, CanonicalError>,
) -> Result<LocalRunResult, LocalAgentError> {
    responses.reverse();
    let handle = agent.agent;
    let pending = agent.runtime.handle().prompt(handle, prompt(text)).unwrap();
    loop {
        let mut round = Round::begin(&mut agent.runtime)?;
        loop {
            let (operation, generation, result) =
                match round.next(&mut agent.runtime, &agent.stores)? {
                    RoundStep::Model {
                        operation,
                        generation,
                        input,
                    } => (
                        operation,
                        generation,
                        agent
                            .model
                            .execute(&input, Ok(responses.pop().unwrap()))
                            .and_then(|output| preserve_output(output, Ok(json("{}"))))
                            .map(EffectOutput::Model),
                    ),
                    RoundStep::Store {
                        operation,
                        generation,
                        ..
                    } => (
                        operation,
                        generation,
                        Ok(EffectOutput::Store(StoreEffectOutput::Persisted)),
                    ),
                    RoundStep::Tools(batch) => {
                        let completions = batch
                            .into_iter()
                            .map(|request| execute_tool(&agent.tools, request, tool))
                            .collect();
                        settle_batch(&mut agent.runtime, completions)?;
                        break;
                    }
                };
            agent.runtime.submit_completion(EffectCompletion {
                operation,
                generation,
                result,
            })?;
        }
        if let Some(result) = agent.runtime.drive_and_read_outcome(&pending)? {
            return Ok(result);
        }
    }
}

fn execute_tool(
    tools: &Vec<ExecutorKey>,
    request: ToolRequest,
    tool: &dyn Fn(&ToolEffectInput) -> Result<ToolOutcome, CanonicalError>,
) -> EffectCompletion {
    let result = match route_tool(&request.input, tools) {
        Ok(position) => {
            let key = &tools[position];
            let adapter = ToolAdapter::new(key.id.clone(), key.revision);
            tool(&request.input)
                .and_then(|outcome| adapter.execute(request.input, outcome))
                .map(EffectOutput::Tool)
        }
        Err(error) => Err(error),
    };
    EffectCompletion {
        operation: request.operation,
        generation: request.generation,
        result,
    }
}

fn no_tool(_: &ToolEffectInput) -> Result<ToolOutcome, CanonicalError> {
    unreachable!()
}

#[test]
fn request_preserves_schema_and_correlated_tool_history() {
    let input = input();
    let request =
        completion_request(&input, &nothing(4), &Ok(user("question"))).unwrap();
    assert_eq!(request.model.as_deref(), Some("mock-3"));
    assert_eq!(request.tools[0].parameters["required"][0], "id");
    let history = &request.chat_history;
    assert!(matches!(&history[0], Message::System(content) if content == "system"));
    assert!(matches!(
        &history[2],
        Message::Assistant { content, .. }
            if matches!(&content[0], AssistantContent::ToolCall(call)
                if call.id == "call-1" && call.function.name == "lookup")
    ));
    assert_eq!(history.len(), 4);
}

#[test]
fn adapter_normalizes_provider_tool_calls() {
    let mut wire = call("wire-id", "lookup", r#"{"id": 9}"#);
    wire.call_id = Some("call-id".to_owned());
    let adapter = CompletionModelAdapter::new();
    let output = adapter.execute(&input(), Ok(tool_response(wire))).unwrap();
    assert_eq!(
        output.tool_calls,
        vec![ModelToolCall {
            id: "call-id".to_owned(),
            provider_result_id: "lookup".to_owned(),
            provider_call_id: Some("call-id".to_owned()),
            name: "lookup".to_owned(),
            arguments: json(r#"{"id": 9}"#),
        }]
    );
}

#[test]
fn adapter_uniquifies_only_missing_provider_tool_call_ids() {
    let output = CompletionModelAdapter::new()
        .execute(
            &input(),
            Ok(response(vec![
                AssistantContent::ToolCall(call("lookup", "lookup", r#"{"id": 1}"#)),
                AssistantContent::ToolCall(call("lookup", "lookup", r#"{"id": 2}"#)),
            ])),
        )
        .unwrap();
    assert_eq!(output.tool_calls[0].id, "lookup");
    assert_eq!(output.tool_calls[1].id, "lookup-1");
    let Some(Message::Assistant { content, .. }) = output.assistant_message else {
        panic!("expected assistant message");
    };
    let provider_ids = content
        .iter()
        .filter_map(|content| match content {
            AssistantContent::ToolCall(call) => Some(call.id.as_str()),
            _ => None,
        })
        .collect::<Vec<_>>();
    assert_eq!(provider_ids, ["lookup", "lookup"]);
}

#[test]
fn adapter_reserves_later_explicit_ids_before_synthesizing() {
    let mut explicit = call("wire", "lookup", r#"{"id": 2}"#);
    explicit.call_id = Some("lookup".to_owned());
    let output = CompletionModelAdapter::new()
        .execute(
            &input(),
            Ok(response(vec![
                AssistantContent::ToolCall(call("lookup", "lookup", r#"{"id": 1}"#)),
                AssistantContent::ToolCall(explicit),
            ])),
        )
        .unwrap();
    assert_eq!(output.tool_calls[0].id, "lookup-0");
    assert_eq!(output.tool_calls[1].id, "lookup");
}

#[test]
fn streaming_adapter_emits_correlated_deltas_and_final_output() {
    let adapter = CompletionModelAdapter::new();
    let request = EffectRequest {
        operation: Entity::placeholder(),
        generation: 7,
        input: EffectInput::Model(input()),
    };
    let (operation, generation) = (request.operation, request.generation);
    let model_input = adapter.stream_input(request).unwrap();
    let mut wire = call("wire-id", "lookup", r#"{"id": 4}"#);
    wire.call_id = Some("call-id".to_owned());
    let items = vec![
        StreamedAssistantContent::Text("hel".to_owned()),
        StreamedAssistantContent::Text("lo".to_owned()),
        StreamedAssistantContent::ToolCall {
            tool_call: wire.clone(),
            internal_call_id: "internal".to_owned(),
        },
        StreamedAssistantContent::Last,
    ];
    let mut sequence = 0;
    let mut runtime = Runtime::new(RuntimeConfig::default(), 1).unwrap();
    for item in items {
        forward_item(runtime.effects(), operation, generation, &mut sequence, item).unwrap();
    }
    let deltas = runtime
        .effects()
        .ingress
        .drain()
        .into_iter()
        .map(|message| match message {
            EffectIngress::Delta(delta) => delta,
            EffectIngress::Completion(_) => unreachable!(),
        })
        .collect::<Vec<_>>();
    let output = adapter
        .execute(
            &model_input,
            Ok(response(vec![
                AssistantContent::Text("hel".to_owned()),
                AssistantContent::Text("lo".to_owned()),
                AssistantContent::ToolCall(wire),
            ])),
        )
        .unwrap();
    assert_eq!(output.text, "hello");
    assert_eq!(output.tool_calls[0].id, "call-id");
    for (delta, (sequence, text)) in deltas.iter().zip([(0, "hel"), (1, "lo")]) {
        assert_eq!(delta.operation, Entity::placeholder());
        assert_eq!(delta.generation, 7);
        assert_eq!(delta.sequence, sequence);
        assert_eq!(delta.text, text);
    }
    assert_eq!(deltas.len(), 2);
}

#[test]
fn typed_tool_adapter_enforces_snapshotted_revision() {
    let adapter = ToolAdapter::new(id("add"), 2);
    let first = tool_input(add_decision(2), "call", r#"{"left": 2, "right": 3}"#);
    assert!(adapter.admit_input(&first).is_ok());
    let outcome = add(&first);
    let output = adapter.execute(first, outcome).unwrap();
    assert_eq!(output.raw, json(r#"[{"type": "json", "value": 5}]"#));
    assert_eq!(output.presentation, "5");

    let stale = tool_input(add_decision(3), "stale", r#"{"left": 1, "right": 1}"#);
    let outcome = add(&stale);
    assert_eq!(
        adapter.execute(stale, outcome),
        Err(CanonicalError::StaleEntity("tool revision add@3".to_owned()))
    );
}

#[test]
fn tool_failures_separate_diagnostics_from_model_presentation() {
    let adapter = ToolAdapter::new(id("add"), 2);
    let failed = ToolOutcome::Failed(ToolExecutionError {
        message: "operator secret".to_owned(),
        retryable: None,
        kind: ToolErrorKind::Other,
        refusal: false,
        model_output: EncodedOutput {
            presentation: "the tool failed".to_owned(),
            raw: EncodedContent::Encoded(json(r#"[{"type":"text","text":"the tool failed"}]"#)),
        },
    });
    let output = adapter
        .execute(
            tool_input(add_decision(2), "call", r#"{"left": 2, "right": 3}"#),
            failed,
        )
        .unwrap();
    assert_eq!(output.presentation, "the tool failed");
    assert!(!output.raw.to_string().contains("operator secret"));
    let failure = output.failure.unwrap();
    assert_eq!(failure.message, "operator secret");
    assert_eq!(failure.kind, ToolErrorKind::Other);
    assert_eq!(failure.retryable, None);
}

fn memory_input(revision: u64) -> StoreEffectInput {
    StoreEffectInput {
        decision: StoreDecision {
            store_entity: Entity::placeholder(),
            store_id: id("memory"),
            revision,
            kind: "conversation-memory".to_owned(),
            tenant: tenant("tenant"),
        },
        operation: StoreOperation::LoadConversation {
            conversation: id("conversation"),
        },
    }
}

#[test]
fn typed_store_adapter_enforces_snapshotted_revision() {
    let adapter = StoreAdapter::new(id("memory"), 4);
    let output = adapter
        .execute(
            &memory_input(4),
            Ok(StoreEffectOutput::LoadedConversation(Vec::new())),
        )
        .unwrap();
    assert_eq!(output, StoreEffectOutput::LoadedConversation(Vec::new()));
    assert_eq!(
        adapter.execute(&memory_input(5), Ok(StoreEffectOutput::Persisted)),
        Err(CanonicalError::StaleEntity(
            "store revision memory@5".to_owned()
        ))
    );
    assert_eq!(
        adapter.execute(&memory_input(4), Err("disk full".to_owned())),
        Err(CanonicalError::Store {
            message: "disk full".to_owned(),
            retryable: false
        })
    );
}

fn local_agent(instructions: &str) -> LocalModelAgent {
    LocalModelAgentBuilder::new("mock".to_owned(), "mock-1".to_owned())
        .instructions(instructions.to_owned())
        .build(1)
        .unwrap()
}

fn agent_with_tools(names: &[&str]) -> LocalModelAgent {
    let mut builder = LocalModelAgentBuilder::new("mock".to_owned(), "mock-1".to_owned());
    for (order, name) in names.iter().enumerate() {
        builder = builder.tool(id(name), capability(name, order as u32));
    }
    builder.build(1).unwrap()
}

#[test]
fn local_facade_drives_the_ecs_schedule() {
    let mut agent = local_agent("be concise");
    let result = run(
        &mut agent,
        "hello",
        vec![text_response("schedule result")],
        &no_tool,
    )
    .unwrap();
    assert_eq!(result.output.text, "schedule result");
    assert_eq!(agent.runtime.metrics().unobserved_terminal_runs, 1);
    agent.runtime.run_until_stalled().unwrap();
    assert_eq!(agent.runtime.metrics().unobserved_terminal_runs, 0);
}

#[test]
fn streaming_provider_error_settles_the_authoritative_run() {
    let mut agent = local_agent("be concise");
    let handle = agent.agent;
    let (pending, mut stream) = agent
        .runtime
        .handle()
        .prompt_stream(handle, prompt("hello"))
        .unwrap();
    let request = agent.runtime.drive_and_take_effects().unwrap().remove(0);
    let mut answer = ModelStream::new(request.operation, request.generation);
    let (events, progress) = answer.feed(
        &mut agent.runtime,
        &mut stream,
        &pending,
        StreamedAssistantContent::Text("partial".to_owned()),
    );
    assert_eq!(events, vec![LocalStreamEvent::Delta("partial".to_owned())]);
    assert!(matches!(progress, FeedProgress::Open));
    assert_eq!(answer.sequence, 1);
    let failure = agent
        .model
        .execute(
            request.model_input().unwrap(),
            Err("ProviderError: stream failed".to_owned()),
        )
        .unwrap_err();
    agent
        .runtime
        .submit_completion(EffectCompletion {
            operation: request.operation,
            generation: request.generation,
            result: Err(failure),
        })
        .unwrap();
    let (events, progress) =
        conclude_round(&mut agent.runtime, &mut stream, &pending, Vec::new());
    assert!(events.is_empty());
    assert!(matches!(
        progress,
        StreamProgress::Failed(LocalAgentError::Canonical(CanonicalError::Provider { message, .. }))
            if message.contains("stream failed")
    ));
    let world = agent.runtime.world();
    let states = world
        .runs
        .states
        .entities()
        .into_iter()
        .map(|run| world.runs.states.get(run).unwrap().clone())
        .collect::<Vec<_>>();
    assert_eq!(
        states,
        vec![RunState::Failed(CanonicalError::Provider {
            message: "ProviderError: stream failed".to_owned(),
            retryable: false,
        })]
    );
}

#[test]
fn local_facade_executes_tools_through_ecs_operations() {
    let mut agent = agent_with_tools(&["add"]);
    let result = run(
        &mut agent,
        "add",
        vec![
            tool_response(call("wire-call", "add", r#"{"left": 2, "right": 3}"#)),
            text_response("five"),
        ],
        &|input| Ok(add(input)),
    )
    .unwrap();
    assert_eq!(result.output.text, "five");
}

#[test]
fn streaming_repeated_missing_call_ids_keep_distinct_correlation() {
    let output = normalize_model_output(
        &vec![
            AssistantContent::ToolCall(call("add", "add", r#"{"left": 1, "right": 2}"#)),
            AssistantContent::ToolCall(call("add", "add", r#"{"left": 3, "right": 4}"#)),
        ],
        CompletionUsage::default(),
        &None,
    )
    .unwrap();
    let mut answer = ModelStream::new(Entity(1), 0);
    answer.observed = vec![
        (
            call("add", "add", r#"{"left": 1, "right": 2}"#),
            "add".to_owned(),
        ),
        (
            call("add", "add", r#"{"left": 3, "right": 4}"#),
            "add".to_owned(),
        ),
    ];
    let (calls, events) = answer.finish(&output.tool_calls);
    assert_eq!(calls.len(), 2);
    assert_eq!(calls[0].tool_call.id, "add");
    assert_eq!(calls[1].tool_call.id, "add");
    assert_eq!(calls[0].internal_call_id, "add");
    assert_eq!(calls[1].internal_call_id, "add-1");
    assert!(matches!(
        &events[1],
        LocalStreamEvent::ToolCall { internal_call_id, .. } if internal_call_id == "add-1"
    ));

    let completions = output
        .tool_calls
        .iter()
        .zip(["3", "7"])
        .map(|(tool_call, sum)| EffectCompletion {
            operation: Entity(2),
            generation: 0,
            result: Ok(EffectOutput::Tool(ToolEffectOutput {
                call_id: tool_call.id.clone(),
                provider_result_id: tool_call.provider_result_id.clone(),
                provider_call_id: tool_call.provider_call_id.clone(),
                name: tool_call.name.clone(),
                raw: json("null"),
                presentation: sum.to_owned(),
                failure: None,
            })),
        })
        .collect();
    let mut committed = Vec::new();
    let mut result_ids = Vec::new();
    let mut texts = Vec::new();
    for event in batch_events(&calls, &completions, &nothing(2)) {
        match event {
            LocalStreamEvent::ToolCommitted {
                internal_call_id, ..
            } => committed.push(internal_call_id),
            LocalStreamEvent::ToolResult { tool_result, .. } => {
                texts.push(tool_result.content);
                result_ids.push(tool_result.id)
            }
            _ => unreachable!(),
        }
    }
    assert_eq!(
        texts,
        vec![
            vec![ToolResultContent::Text("3".to_owned())],
            vec![ToolResultContent::Text("7".to_owned())]
        ]
    );
    assert_eq!(committed, ["add", "add-1"]);
    assert_eq!(result_ids, ["add", "add"]);
}

#[test]
fn extended_details_report_each_committed_model_call() {
    let mut agent = agent_with_tools(&["add"]);
    let mut first = tool_response(call("wire-call", "add", r#"{"left": 2, "right": 3}"#));
    first.usage = usage(3, 1, 4);
    let mut second = text_response("five");
    second.usage = usage(5, 2, 7);
    let result = run(&mut agent, "add", vec![first, second], &|input| Ok(add(input))).unwrap();
    let response = run_response(result.output, &result.completion_calls, None);
    assert_eq!(response.requests(), 2);
    assert_eq!(response.completion_calls()[0].usage, usage(3, 1, 4));
    assert_eq!(response.completion_calls()[1].usage, usage(5, 2, 7));
    assert_eq!(response.usage(), usage(8, 3, 11));
    assert_eq!(response.output(), "five");
}

#[test]
fn local_model_adapter_rejects_mutated_capability_identity() {
    let mut agent = local_agent("");
    let entity = agent.agent.entity();
    let model = *agent.runtime.world().domain.uses_model.get(entity).unwrap();
    agent.runtime.world_mut().domain.models.insert(
        model,
        ModelCapability {
            provider: "mock".to_owned(),
            model: "mock-1".to_owned(),
            revision: 2,
            retired: false,
        },
    );
    let result = run(
        &mut agent,
        "hello",
        vec![text_response("must not execute")],
        &no_tool,
    );
    assert!(matches!(
        result,
        Err(LocalAgentError::Canonical(CanonicalError::StaleEntity(message)))
            if message.contains("local-model@2")
    ));
}

#[test]
fn local_executor_panics_settle_as_correlated_failures() {
    let mut agent = agent_with_tools(&["panic"]);
    let result = run(
        &mut agent,
        "panic",
        vec![tool_response(call("wire-call", "panic", "{}"))],
        &|_| Err(CanonicalError::ExecutorPanicked("tool task exploded".to_owned())),
    );
    assert!(matches!(
        result,
        Err(LocalAgentError::Canonical(CanonicalError::ExecutorPanicked(message)))
            if message == "tool task exploded"
    ));
}

#[test]
fn one_logical_tool_batch_is_offered_at_once() {
    let mut agent = agent_with_tools(&["first", "second"]);
    let handle = agent.agent;
    agent
        .runtime
        .handle()
        .prompt(handle, prompt("run both"))
        .unwrap();
    let request = agent.runtime.drive_and_take_effects().unwrap().remove(0);
    let output = normalize_model_output(
        &vec![
            AssistantContent::ToolCall(call("first-call", "first", r#"{"left": 1, "right": 2}"#)),
            AssistantContent::ToolCall(call("second-call", "second", r#"{"left": 3, "right": 4}"#)),
        ],
        CompletionUsage::default(),
        &None,
    )
    .unwrap();
    agent
        .runtime
        .submit_completion(EffectCompletion {
            operation: request.operation,
            generation: request.generation,
            result: preserve_output(output, Ok(json("{}"))).map(EffectOutput::Model),
        })
        .unwrap();
    let batch = agent.runtime.drive_and_take_effects().unwrap();
    assert_eq!(batch.len(), 2);
    assert_eq!(batch[0].tool_input().unwrap().call_id, "first-call");
    assert_eq!(batch[1].tool_input().unwrap().call_id, "second-call");
}

#[test]
fn a_discovery_adapter_takes_only_its_source() {
    let adapter = DiscoveryAdapter::new(id("source"));
    let refresh = |source: &str| DiscoveryEffectInput {
        source: Entity::placeholder(),
        source_id: id(source),
        kind: "mcp".to_owned(),
        generation: 1,
        tenant: tenant("tenant"),
    };
    let empty = DiscoveryEffectOutput { tools: Vec::new() };
    assert_eq!(
        adapter.execute(&refresh("source"), Ok(empty.clone())),
        Ok(empty.clone())
    );
    assert_eq!(
        adapter.execute(&refresh("other"), Ok(empty)),
        Err(CanonicalError::StaleEntity("discovery source other".to_owned()))
    );
    assert_eq!(
        adapter.execute(&refresh("source"), Err("offline".to_owned())),
        Err(CanonicalError::Discovery {
            message: "offline".to_owned(),
            retryable: false
        })
    );
}

#[test]
fn a_stream_takes_only_model_effects_of_its_decision() {
    let bound = CompletionModelAdapter::bound(input().decision);
    let mut other = input();
    other.decision.model = "mock-4".to_owned();
    let request = |input| EffectRequest {
        operation: Entity(4),
        generation: 0,
        input,
    };
    assert_eq!(
        bound.stream_input(request(EffectInput::Model(input()))).unwrap(),
        input()
    );
    assert_eq!(
        bound.stream_input(request(EffectInput::Model(other))),
        Err(CanonicalError::StaleEntity("model revision model@3".to_owned()))
    );
    assert_eq!(
        bound.stream_input(request(EffectInput::Store(memory_input(1)))),
        Err(CanonicalError::EffectKindMismatch)
    );
}

#[test]
fn tool_outcomes_that_cannot_be_encoded_fail() {
    let adapter = ToolAdapter::new(id("add"), 2);
    let refused = || EncodedOutput {
        presentation: "5".to_owned(),
        raw: EncodedContent::Refused("no".to_owned()),
    };
    let failure = |message: &str| {
        Err(CanonicalError::Tool {
            message: message.to_owned(),
            retryable: false,
        })
    };
    let call = || tool_input(add_decision(2), "call", "{}");
    assert_eq!(
        adapter.execute(call(), ToolOutcome::Unencodable("no".to_owned())),
        failure("failed to serialize tool arguments: no")
    );
    assert_eq!(
        adapter.execute(call(), ToolOutcome::Completed(refused())),
        failure("failed to serialize output: no")
    );
    let error = ToolExecutionError {
        message: argument_diagnostic("missing field"),
        retryable: Some(false),
        kind: ToolErrorKind::InvalidArguments,
        refusal: false,
        model_output: refused(),
    };
    assert_eq!(error.message, "failed to parse tool arguments: missing field");
    assert_eq!(
        tool_failure_output(call(), error),
        failure("failed to serialize model-visible tool failure: no")
    );
    assert_eq!(
        delta_failure("effect queue is full"),
        CanonicalError::Provider {
            message: "stream delta ingress failed: effect queue is full".to_owned(),
            retryable: true
        }
    );
}

#[test]
fn images_are_not_supported_and_null_arguments_are_an_empty_object() {
    let image = vec![
        AssistantContent::Text("look".to_owned()),
        AssistantContent::Image(json("{}")),
    ];
    assert_eq!(
        normalize_model_output(&image, CompletionUsage::default(), &None),
        Err(CanonicalError::UnsupportedModelContent(
            "assistant image".to_owned()
        ))
    );
    let output = normalize_model_output(
        &vec![AssistantContent::ToolCall(call("a", "add", "null"))],
        usage(0, 0, 9),
        &Some("message".to_owned()),
    )
    .unwrap();
    assert_eq!(output.tool_calls[0].arguments, json("{}"));
    assert_eq!(
        output.usage,
        Usage {
            input_tokens: 0,
            output_tokens: 9
        }
    );
    assert!(matches!(
        output.assistant_message,
        Some(Message::Assistant { id: Some(id), .. }) if id == "message"
    ));
}

fn reasoning(id: Option<&str>, text: &str, content: &str) -> AssistantContent {
    AssistantContent::Reasoning(Reasoning {
        id: id.map(str::to_owned),
        display_text: text.to_owned(),
        content: json(content),
    })
}

#[test]
fn repeated_and_anonymous_reasoning_is_left_out() {
    let output = normalize_model_output(
        &vec![
            reasoning(None, "draft", "1"),
            reasoning(Some("r"), "plan", "2"),
            AssistantContent::Text("x".to_owned()),
            reasoning(Some("r"), "plan", "3"),
        ],
        CompletionUsage::default(),
        &None,
    )
    .unwrap();
    let Some(Message::Assistant { content, .. }) = output.assistant_message else {
        panic!("expected assistant message");
    };
    assert_eq!(
        content,
        vec![
            reasoning(Some("r"), "plan", "3"),
            AssistantContent::Text("x".to_owned())
        ]
    );
    let empty: NormalizedOutput =
        normalize_model_output(&Vec::new(), CompletionUsage::default(), &None).unwrap();
    assert_eq!(empty.assistant_message, None);
    let preserved = preserve_output(empty, Err("unused".to_owned())).unwrap();
    assert_eq!(preserved.assistant_message, None);
    let spoken = normalize_model_output(
        &vec![AssistantContent::Text("x".to_owned())],
        CompletionUsage::default(),
        &None,
    )
    .unwrap();
    assert_eq!(
        preserve_output(spoken, Err("too deep".to_owned())),
        Err(CanonicalError::Provider {
            message: "failed to preserve canonical assistant message: too deep".to_owned(),
            retryable: false
        })
    );
}

fn provider(message: &str) -> CanonicalError {
    CanonicalError::Provider {
        message: message.to_owned(),
        retryable: false,
    }
}

#[test]
fn transcripts_become_messages() {
    let value = json("{}");
    let cases = [
        (
            TranscriptEntry::UserMessage(value.clone()),
            "invalid canonical user message: bad",
        ),
        (
            TranscriptEntry::Message(value.clone()),
            "invalid canonical history message: bad",
        ),
        (
            TranscriptEntry::AssistantMessage(value.clone()),
            "invalid canonical assistant message: bad",
        ),
    ];
    for (entry, message) in cases {
        let history = vec![entry];
        assert_eq!(
            transcript_messages(&history, &vec![DecodedEntry::Refused("bad".to_owned())]),
            Err(provider(message))
        );
        assert_eq!(
            transcript_messages(&history, &vec![DecodedEntry::Message(user("kept"))]),
            Ok(vec![user("kept")])
        );
    }
    let lone = vec![TranscriptEntry::AssistantToolCall {
        call_id: "c".to_owned(),
        name: "n".to_owned(),
        arguments: value.clone(),
    }];
    assert_eq!(
        transcript_messages(&lone, &nothing(1)),
        Err(provider("tool call transcript entry lacked an assistant turn"))
    );
}

#[test]
fn silent_turns_are_left_out_of_responses() {
    let history = vec![
        TranscriptEntry::User("question".to_owned()),
        TranscriptEntry::Assistant(String::new()),
        TranscriptEntry::Assistant("answer".to_owned()),
    ];
    let all = transcript_messages(&history, &nothing(3)).unwrap();
    assert_eq!(all.len(), 3);
    let spoken = response_messages(&history, &nothing(3)).unwrap();
    assert_eq!(spoken.len(), 2);
    assert_eq!(
        spoken[1],
        Message::Assistant {
            id: None,
            content: vec![AssistantContent::Text("answer".to_owned())]
        }
    );
}

#[test]
fn decoded_tool_results_are_grouped_into_one_message() {
    let result = |call: &str| TranscriptEntry::ToolResult {
        call_id: call.to_owned(),
        provider_result_id: call.to_owned(),
        provider_call_id: Some(format!("p-{call}")),
        name: "lookup".to_owned(),
        raw: json("[]"),
        content: "presented".to_owned(),
    };
    let history = vec![result("a"), result("b")];
    let decoded = vec![
        DecodedEntry::Contents(vec![ToolResultContent::Text("decoded".to_owned())]),
        DecodedEntry::Nothing,
    ];
    let messages = transcript_messages(&history, &decoded).unwrap();
    assert_eq!(messages.len(), 1);
    let Message::User { content } = &messages[0] else {
        panic!("expected a user message");
    };
    let texts = content
        .iter()
        .map(|part| match part {
            UserContent::ToolResult(result) => (result.id.clone(), result.content.clone()),
            _ => unreachable!(),
        })
        .collect::<Vec<_>>();
    assert_eq!(
        texts,
        vec![
            (
                "a".to_owned(),
                vec![ToolResultContent::Text("decoded".to_owned())]
            ),
            (
                "b".to_owned(),
                vec![ToolResultContent::Text("presented".to_owned())]
            ),
        ]
    );
}

#[test]
fn requests_fall_back_to_the_prompt_and_offer_the_terminal_tool() {
    let mut bare = input();
    bare.history = Vec::new();
    bare.instructions = String::new();
    bare.decision.model = String::new();
    bare.terminal_tool = Some("final_result".to_owned());
    let request = completion_request(&bare, &Vec::new(), &Ok(user("question"))).unwrap();
    assert_eq!(request.chat_history, vec![user("question")]);
    assert_eq!(request.model, None);
    assert_eq!(request.tools.len(), 2);
    assert_eq!(request.tools[1].name, "final_result");
    assert_eq!(request.tools[1].parameters, json(r#"{"type":"object"}"#));
    assert_eq!(request.output_schema, None);
    assert_eq!(
        completion_request(&bare, &Vec::new(), &Err("bad".to_owned())),
        Err(provider("invalid canonical prompt: bad"))
    );
    bare.output_schema = Some(json(r#"{"type":"string"}"#));
    let request = completion_request(&bare, &Vec::new(), &Ok(user("question"))).unwrap();
    assert_eq!(request.tools[1].parameters, json(r#"{"type":"string"}"#));
    assert_eq!(request.output_schema, None);
    bare.terminal_tool = Some("lookup".to_owned());
    let request = completion_request(&bare, &Vec::new(), &Ok(user("question"))).unwrap();
    assert_eq!(request.tools.len(), 1);
}

#[test]
fn native_schemas_are_objects_or_booleans() {
    let mut native = input();
    native.output_schema = Some(json(r#"{"type":"string"}"#));
    let request = completion_request(&native, &nothing(4), &Ok(user("question"))).unwrap();
    assert_eq!(request.output_schema, Some(json(r#"{"type":"string"}"#)));
    native.output_schema = Some(json("true"));
    assert!(completion_request(&native, &nothing(4), &Ok(user("question"))).is_ok());
    native.output_schema = Some(json("7"));
    assert!(matches!(
        completion_request(&native, &nothing(4), &Ok(user("question"))),
        Err(CanonicalError::InvalidStructuredOutput(message))
            if message.starts_with("invalid configured schema: ")
    ));
    assert_eq!(
        assemble_request(
            &native,
            &nothing(4),
            &Ok(user("question")),
            &Some("not a schema".to_owned())
        ),
        Err(CanonicalError::InvalidStructuredOutput(
            "invalid configured schema: not a schema".to_owned()
        ))
    );
}

#[test]
fn prompt_payloads_hold_the_first_text() {
    let mixed = Message::User {
        content: vec![
            UserContent::Other(json("1")),
            UserContent::Text("first".to_owned()),
            UserContent::Text("second".to_owned()),
        ],
    };
    let payload = prompt_payload(&mixed, Ok(json("2"))).unwrap();
    assert_eq!(payload.text.as_deref(), Some("first"));
    assert!(!payload.plain_text);
    assert_eq!(payload.message, json("2"));
    assert!(prompt_payload(&user("x"), Ok(json("1"))).unwrap().plain_text);
    assert_eq!(
        prompt_payload(&mixed, Err("too deep".to_owned())),
        Err(SubmitError::InvalidPrompt("too deep".to_owned()))
    );
    let system = prompt_payload(&Message::System("s".to_owned()), Ok(json("1"))).unwrap();
    assert_eq!(system.text, None);
}

#[test]
fn builders_present_schemas() {
    let schema = json(r#"{"type":"object"}"#);
    let start = || {
        LocalModelAgentBuilder::new("mock".to_owned(), "mock-1".to_owned())
            .preamble("be brief".to_owned())
            .append_preamble("always")
            .output_schema(schema.clone())
    };
    let agent_of = |local: &LocalModelAgent| {
        let entity = local.agent.entity();
        local.runtime.world().domain.agents.get(entity).unwrap().clone()
    };
    let native = agent_of(&start().build(1).unwrap());
    assert_eq!(native.instructions, "be brief\nalways");
    assert_eq!(native.terminal_tool, None);
    let tool = agent_of(&start().tool(id("add"), capability("add", 0)).build(1).unwrap());
    assert_eq!(tool.terminal_tool.as_deref(), Some("final_result"));
    assert!(tool
        .instructions
        .starts_with("be brief\nalways\n\nWhen you have gathered enough"));
    let prompted = agent_of(
        &start()
            .structured_output_mode(StructuredOutputMode::Prompted)
            .build(1)
            .unwrap(),
    );
    assert_eq!(prompted.terminal_tool.as_deref(), Some(""));
    assert!(prompted.instructions.ends_with("\n{\"type\":\"object\"}"));
    let own = agent_of(
        &start()
            .tool(id("add"), capability("add", 0))
            .terminal_tool("done".to_owned())
            .build(1)
            .unwrap(),
    );
    assert_eq!(own.terminal_tool.as_deref(), Some("done"));
    assert_eq!(own.instructions, "be brief\nalways");
}

#[test]
fn builders_keep_the_last_tool_of_a_name() {
    let local = LocalModelAgentBuilder::new("mock".to_owned(), "mock-1".to_owned())
        .authored_tool("add".to_owned(), "first".to_owned(), json("{}"))
        .authored_tool("sub".to_owned(), "second".to_owned(), json("{}"))
        .authored_tool("add".to_owned(), "third".to_owned(), json("{}"))
        .dynamic_context(3)
        .memory()
        .context("static".to_owned())
        .default_max_turns(usize::MAX)
        .build(1)
        .unwrap();
    assert_eq!(local.tool_positions, vec![1, 2]);
    let keys = local
        .tools
        .iter()
        .map(|key| key.id.as_str().to_owned())
        .collect::<Vec<_>>();
    assert_eq!(keys, ["local-tool-1", "local-tool-2"]);
    let stores = local
        .stores
        .iter()
        .map(|key| key.id.as_str().to_owned())
        .collect::<Vec<_>>();
    assert_eq!(stores, ["local-vector-store-0", "local-conversation-store-1"]);
    let entity = local.agent.entity();
    let agent = local.runtime.world().domain.agents.get(entity).unwrap();
    assert_eq!(agent.documents[0].id, "static_doc_0");
    assert_eq!(agent.max_model_calls, u32::MAX);
    assert_eq!(
        local
            .runtime
            .world()
            .domain
            .retrieval_requirements
            .get(entity)
            .unwrap()
            .limit,
        3
    );
}

#[test]
fn builders_refuse_repeated_identities() {
    let repeated = LocalModelAgentBuilder::new("mock".to_owned(), "mock-1".to_owned())
        .tool(id("same"), capability("a", 0))
        .store(
            id("same"),
            StoreCapability {
                kind: "vector-search".to_owned(),
                revision: 1,
                retired: false,
            },
            StoreGrant {
                order: 0,
                enabled: true,
            },
        )
        .build(1);
    assert!(matches!(
        repeated,
        Err(LocalAgentError::Spawn(SpawnError::DuplicateStableId(id))) if id == "same"
    ));
}

#[test]
fn full_ingress_is_drained_before_a_completion_is_sent() {
    let mut runtime = Runtime::new(
        RuntimeConfig {
            completion_capacity: 1,
            ..RuntimeConfig::default()
        },
        1,
    )
    .unwrap();
    let stray = || EffectCompletion {
        operation: Entity::placeholder(),
        generation: 0,
        result: Err(CanonicalError::Timeout),
    };
    runtime.effects().try_send(stray()).unwrap();
    assert_eq!(
        runtime.effects().try_send(stray()),
        Err(EffectIoError::Backpressure)
    );
    runtime.submit_completion(stray()).unwrap();
    assert_eq!(runtime.effects.ingress.items.len(), 1);
    runtime.effects().shut_down();
    runtime.effects.ingress.stop_receiving();
    assert!(matches!(
        runtime.submit_completion(stray()),
        Err(LocalAgentError::Effect(EffectIoError::Disconnected))
    ));
}

#[test]
fn routes_fail_without_an_executor() {
    assert!(matches!(
        route_effect(EffectInput::Store(memory_input(4)), &Vec::new()),
        EffectRoute::Failed(CanonicalError::StaleEntity(message))
            if message == "store revision memory@4"
    ));
    let call = tool_input(add_decision(2), "call", "{}");
    assert_eq!(
        route_tool(&call, &Vec::new()),
        Err(CanonicalError::UnknownTool("add".to_owned()))
    );
    let refresh = DiscoveryEffectInput {
        source: Entity::placeholder(),
        source_id: id("source"),
        kind: "mcp".to_owned(),
        generation: 1,
        tenant: tenant("tenant"),
    };
    assert!(matches!(
        route_effect(EffectInput::Discovery(refresh), &Vec::new()),
        EffectRoute::Failed(CanonicalError::EffectKindMismatch)
    ));
}

#[test]
fn errors_turn_into_prompt_errors() {
    assert_eq!(
        local_prompt_error(LocalAgentError::Canonical(CanonicalError::UnknownTool(
            "add".to_owned()
        ))),
        PromptError::UnknownToolCall {
            tool_name: "add".to_owned()
        }
    );
    assert_eq!(
        local_prompt_error(LocalAgentError::Canonical(CanonicalError::ModelCallBudget {
            limit: 2
        })),
        PromptError::MaxTurns { max_turns: 2 }
    );
    assert_eq!(
        local_prompt_error(LocalAgentError::Cancelled),
        PromptError::PromptCancelled {
            reason: "run was cancelled".to_owned()
        }
    );
    assert_eq!(
        local_prompt_error(LocalAgentError::Canonical(provider("down"))),
        PromptError::Provider("provider failure: down".to_owned())
    );
    assert_eq!(
        local_prompt_error(LocalAgentError::Drive(DriveError::ProgressLimit(12))),
        PromptError::Provider(
            "runtime exceeded the progress limit of 12 schedule passes".to_owned()
        )
    );
    assert_eq!(
        local_prompt_error(LocalAgentError::Identity(IdentityError::Empty)),
        PromptError::Provider("identity must not be empty".to_owned())
    );
    assert_eq!(
        CanonicalError::PolicyDenied {
            policy: "p".to_owned()
        }
        .text(),
        "policy `p` denied the operation"
    );
}

#[test]
fn requests_hold_their_settings() {
    let request = StreamingPromptRequest::new(user("x"))
        .max_turns(3)
        .tool_concurrency(2)
        .conversation("talk".to_owned());
    assert_eq!(request.tool_concurrency, 2);
    assert_eq!(request.request.max_model_calls, Some(3));
    assert_eq!(
        request.request.accepted_conversation().unwrap(),
        Some(id("talk"))
    );
    let blank = AgentPromptRequest::new(user("x")).conversation("  ".to_owned());
    assert!(matches!(
        blank.accepted_conversation(),
        Err(LocalAgentError::Identity(IdentityError::Empty))
    ));
}

#[test]
fn stream_items_mirror_events() {
    assert_eq!(
        stream_item(LocalStreamEvent::Delta("x".to_owned()), None),
        MultiTurnStreamItem::StreamAssistantItem(StreamedAssistantContent::Text("x".to_owned()))
    );
    let finished = stream_item(
        LocalStreamEvent::Finished {
            output: RunOutput {
                text: "done".to_owned(),
                usage: Usage {
                    input_tokens: 2,
                    output_tokens: 3,
                },
            },
            transcript: Vec::new(),
            completion_calls: vec![Usage {
                input_tokens: 2,
                output_tokens: 3,
            }],
        },
        Some(vec![user("x")]),
    );
    let MultiTurnStreamItem::FinalResponse(response) = finished else {
        panic!("expected the final response");
    };
    assert_eq!(response.output(), "done");
    assert_eq!(response.usage(), usage(2, 3, 5));
    assert_eq!(response.completion_calls()[0].call_index, 0);
    assert_eq!(response.messages().unwrap().len(), 1);
    assert_eq!(
        MultiTurnStreamItem::final_response(
            vec![
                AssistantContent::Text("a".to_owned()),
                AssistantContent::ToolCall(call("c", "n", "{}")),
                AssistantContent::Text("b".to_owned()),
            ],
            usage(1, 1, 2)
        ),
        {
            let mut response =
                rig_runtime::report::PromptResponse::new("ab".to_owned(), usage(1, 1, 2));
            response.content = vec![
                AssistantContent::Text("a".to_owned()),
                AssistantContent::ToolCall(call("c", "n", "{}")),
                AssistantContent::Text("b".to_owned()),
            ];
            MultiTurnStreamItem::FinalResponse(response)
        }
    );
}

#[test]
fn prompts_of_foreign_agents_are_refused() {
    let mut runtime = Runtime::new(RuntimeConfig::default(), 1).unwrap();
    let foreign = local_agent("").agent;
    let mut other = foreign;
    other.runtime_id = 2;
    assert_eq!(
        runtime.handle().prompt(other, prompt("x")),
        Err(SubmitError::ForeignRuntime)
    );
    let mut small = Runtime::new(
        RuntimeConfig {
            command_capacity: 1,
            ..RuntimeConfig::default()
        },
        1,
    )
    .unwrap();
    let first = small
        .handle()
        .prompt_configured(foreign, prompt("x"), PromptOptions::default())
        .unwrap();
    assert_eq!(first.stable_id().as_str(), "run-1-1");
    assert_eq!(
        small.handle().prompt(foreign, prompt("x")),
        Err(SubmitError::Backpressure)
    );
    small.run_until_stalled().unwrap();
    let third = small.handle().prompt(foreign, prompt("x")).unwrap();
    assert_eq!(third.stable_id().as_str(), "run-1-3");
}

#[test]
fn tool_calls_wait_for_the_other_effects() {
    let mut agent = agent_with_tools(&["add"]);
    let request = |operation: u64, input| EffectRequest {
        operation: Entity(operation),
        generation: 0,
        input,
    };
    let mut round = Round {
        requests: vec![
            request(1, EffectInput::Tool(tool_input(add_decision(1), "first", "{}"))),
            request(2, EffectInput::Store(memory_input(9))),
            request(3, EffectInput::Model(input())),
            request(4, EffectInput::Tool(tool_input(add_decision(1), "second", "{}"))),
        ],
        batch: Vec::new(),
    };
    let stores = Vec::new();
    assert!(matches!(
        round.next(&mut agent.runtime, &stores).unwrap(),
        RoundStep::Model { operation, .. } if operation == Entity(3)
    ));
    assert_eq!(agent.runtime.effects.ingress.items.len(), 1);
    let RoundStep::Tools(batch) = round.next(&mut agent.runtime, &stores).unwrap() else {
        panic!("expected the tool calls");
    };
    let ids = batch
        .iter()
        .map(|request| request.input.call_id.as_str())
        .collect::<Vec<_>>();
    assert_eq!(ids, ["first", "second"]);
    agent.runtime.effects.ingress.stop_receiving();
    let lost = EffectCompletion {
        operation: Entity(1),
        generation: 0,
        result: Err(CanonicalError::Timeout),
    };
    assert!(matches!(
        settle_batch(&mut agent.runtime, vec![lost]),
        Err(LocalAgentError::Effect(EffectIoError::Disconnected))
    ));
}

#[test]
fn a_text_without_an_ingress_breaks_the_answer() {
    let mut agent = local_agent("");
    let handle = agent.agent;
    let (pending, mut stream) = agent
        .runtime
        .handle()
        .prompt_stream(handle, prompt("hello"))
        .unwrap();
    agent.runtime.effects.ingress.stop_receiving();
    let mut answer = ModelStream::new(Entity(1), 0);
    let (events, progress) = answer.feed(
        &mut agent.runtime,
        &mut stream,
        &pending,
        StreamedAssistantContent::Text("lost".to_owned()),
    );
    assert!(events.is_empty());
    assert!(matches!(
        progress,
        FeedProgress::Broken(CanonicalError::Provider { message, retryable: true })
            if message.starts_with("stream delta ingress failed: ")
    ));
    let mut sequence = u64::MAX;
    assert!(forward_item(
        agent.runtime.effects(),
        Entity(1),
        0,
        &mut sequence,
        StreamedAssistantContent::Text("lost".to_owned())
    )
    .is_err());
    assert_eq!(sequence, u64::MAX);
    let (events, _) = answer.feed(
        &mut agent.runtime,
        &mut stream,
        &pending,
        StreamedAssistantContent::Unknown(json("1")),
    );
    assert_eq!(events, vec![LocalStreamEvent::Unknown(json("1"))]);
}

#[test]
fn a_spent_budget_ends_the_run_after_its_tools() {
    let mut agent = LocalModelAgentBuilder::new("mock".to_owned(), "mock-1".to_owned())
        .tool(id("add"), capability("add", 0))
        .max_model_calls(1)
        .build(1)
        .unwrap();
    let result = run(
        &mut agent,
        "add",
        vec![tool_response(call("wire-call", "add", r#"{"left": 2, "right": 3}"#))],
        &|input| Ok(add(input)),
    );
    assert!(matches!(
        result,
        Err(LocalAgentError::Canonical(CanonicalError::ModelCallBudget { limit: 1 }))
    ));
    assert!(agent.runtime.drive_and_take_effects().unwrap().is_empty());
}

/// Streams one prompt up to its first batch of two tools, settles the batch with the given
/// results, and gives what is then reported.
fn conclude_batch(
    second: Result<ToolOutcome, CanonicalError>,
) -> (Vec<LocalStreamEvent>, StreamProgress) {
    let mut agent = agent_with_tools(&["first", "second"]);
    let handle = agent.agent;
    let (pending, mut stream) = agent
        .runtime
        .handle()
        .prompt_stream(handle, prompt("both"))
        .unwrap();
    let mut round = Round::begin(&mut agent.runtime).unwrap();
    let RoundStep::Model {
        operation,
        generation,
        input,
    } = round.next(&mut agent.runtime, &agent.stores).unwrap()
    else {
        panic!("expected the model");
    };
    let output = agent
        .model
        .execute(
            &input,
            Ok(response(vec![
                AssistantContent::ToolCall(call("a", "first", r#"{"left": 1, "right": 2}"#)),
                AssistantContent::ToolCall(call("b", "second", r#"{"left": 3, "right": 4}"#)),
            ])),
        )
        .unwrap();
    let (calls, _) = ModelStream::new(operation, generation).finish(&output.tool_calls);
    let completion = EffectCompletion {
        operation,
        generation,
        result: preserve_output(output, Ok(json("{}"))).map(EffectOutput::Model),
    };
    settle_batch(&mut agent.runtime, vec![completion]).unwrap();
    conclude_round(&mut agent.runtime, &mut stream, &pending, Vec::new());
    let mut round = Round::begin(&mut agent.runtime).unwrap();
    let RoundStep::Tools(batch) = round.next(&mut agent.runtime, &agent.stores).unwrap() else {
        panic!("expected the tool calls");
    };
    let tools = &agent.tools;
    let completions = batch
        .into_iter()
        .map(|request| {
            execute_tool(tools, request, &|input| {
                if input.decision.name == "first" {
                    Ok(add(input))
                } else {
                    second.clone()
                }
            })
        })
        .collect::<Vec<_>>();
    let committed = batch_events(&calls, &completions, &nothing(2));
    assert!(!committed.is_empty());
    settle_batch(&mut agent.runtime, completions).unwrap();
    conclude_round(&mut agent.runtime, &mut stream, &pending, committed)
}

#[test]
fn a_failed_batch_reports_no_tool_results() {
    let error = CanonicalError::ExecutorPanicked("second exploded".to_owned());
    let (events, progress) = conclude_batch(Err(error.clone()));
    assert!(events.is_empty());
    assert!(matches!(
        progress,
        StreamProgress::Failed(LocalAgentError::Canonical(reason)) if reason == error
    ));
}

#[test]
fn a_committed_batch_reports_its_tool_results() {
    let (events, progress) = conclude_batch(Ok(ToolOutcome::Completed(EncodedOutput {
        presentation: "7".to_owned(),
        raw: EncodedContent::Encoded(json("[]")),
    })));
    assert_eq!(events.len(), 4);
    assert!(matches!(events[0], LocalStreamEvent::ToolCommitted { .. }));
    assert!(matches!(events[3], LocalStreamEvent::ToolResult { .. }));
    assert!(matches!(progress, StreamProgress::Open));
}
