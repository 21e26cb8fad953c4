//! Responses and stream items for the callers of an agent.

use vstd::prelude::*;
use vstd::string::*;

use crate::effect::{RunOutputView, Usage};
use crate::identity::{IdentityError, StableId};
use crate::message::{
    AssistantContent, AssistantContentView, CompletionUsage, Message, MessageView,
};
use crate::normalize::text_upto;
use crate::numeric::{clamp, clamped};
use crate::report::{
    CompletionCall, LocalAgentError, LocalStreamEvent, LocalStreamEventView, MultiTurnStreamItem,
    MultiTurnStreamItemView, PromptResponse, PromptResponseView, StreamedAssistantContent,
    StreamedAssistantContentView,
};
use crate::text::is_blank;

verus! {

impl CompletionCall {
    /// Creates one operation record.
    pub fn new(call_index: usize, usage: CompletionUsage) -> (r: Self)
        ensures
            r == (CompletionCall { call_index, usage }),
    {
        CompletionCall { call_index, usage }
    }
}

impl CompletionUsage {
    /// No usage.
    pub open spec fn zero() -> CompletionUsage {
        CompletionUsage { input_tokens: 0, output_tokens: 0, total_tokens: 0 }
    }
}

impl Default for CompletionUsage {
    fn default() -> (r: Self)
        ensures
            r == CompletionUsage::zero(),
    {
        CompletionUsage { input_tokens: 0, output_tokens: 0, total_tokens: 0 }
    }
}

/// Whether the total of a usage can be counted.
pub open spec fn countable(usage: Usage) -> bool {
    usage.input_tokens + usage.output_tokens <= u64::MAX
}

/// A usage with its total.
pub open spec fn with_total(usage: Usage) -> CompletionUsage {
    CompletionUsage {
        input_tokens: usage.input_tokens,
        output_tokens: usage.output_tokens,
        total_tokens: (usage.input_tokens + usage.output_tokens) as u64,
    }
}

fn add_total(usage: Usage) -> (r: CompletionUsage)
    requires
        countable(usage),
    ensures
        r == with_total(usage),
{
    CompletionUsage {
        input_tokens: usage.input_tokens,
        output_tokens: usage.output_tokens,
        total_tokens: usage.input_tokens + usage.output_tokens,
    }
}

/// A response that is a text.
pub open spec fn text_response(output: Seq<char>, usage: CompletionUsage) -> PromptResponseView {
    PromptResponseView {
        output,
        usage,
        completion_calls: Seq::empty(),
        messages: None,
        content: seq![AssistantContentView::Text(output)],
    }
}

impl PromptResponse {
    /// Creates a terminal text response.
    pub fn new(output: String, usage: CompletionUsage) -> (r: Self)
        ensures
            r@ == text_response(output@, usage),
    {
        let content = vec![AssistantContent::Text(output.clone())];
        assert(content.deep_view() =~= seq![AssistantContentView::Text(output@)]);
        let completion_calls: Vec<CompletionCall> = Vec::new();
        assert(completion_calls.deep_view() =~= Seq::empty());
        PromptResponse { output, usage, completion_calls, messages: None, content }
    }

    /// Creates an empty response.
    pub fn empty() -> (r: Self)
        ensures
            r@ == text_response(Seq::empty(), CompletionUsage::zero()),
    {
        PromptResponse::new(String::new(), CompletionUsage::default())
    }

    /// Attaches canonical messages to an already constructed response.
    pub fn with_messages(self, messages: Vec<Message>) -> (r: Self)
        ensures
            r@ == (PromptResponseView { messages: Some(messages.deep_view()), ..self@ }),
    {
        let mut r = self;
        r.messages = Some(messages);
        r
    }

    /// Returns concatenated final text.
    pub fn output(&self) -> (r: &str)
        ensures
            r@ == self@.output,
    {
        self.output.as_str()
    }

    /// Returns aggregate run usage.
    pub fn usage(&self) -> (r: CompletionUsage)
        ensures
            r == self@.usage,
    {
        self.usage
    }

    /// Returns canonical history when the caller requested it.
    pub fn messages(&self) -> (r: Option<&Vec<Message>>)
        ensures
            match r {
                Some(messages) => self@.messages == Some(messages.deep_view()),
                None => self@.messages is None,
            },
    {
        match &self.messages {
            Some(messages) => Some(messages),
            None => None,
        }
    }

    /// Returns final structured assistant content.
    pub fn content(&self) -> (r: &Vec<AssistantContent>)
        ensures
            r.deep_view() == self@.content,
    {
        &self.content
    }

    /// Returns committed model-operation details.
    pub fn completion_calls(&self) -> (r: &Vec<CompletionCall>)
        ensures
            r.deep_view() == self@.completion_calls,
    {
        &self.completion_calls
    }

    /// Returns the number of committed model operations.
    pub fn requests(&self) -> (r: usize)
        ensures
            r == self@.completion_calls.len(),
    {
        self.completion_calls.len()
    }
}

/// Whether the totals of a result can be counted.
pub open spec fn all_countable(output: RunOutputView, completion_calls: Seq<Usage>) -> bool {
    &&& countable(output.usage)
    &&& forall|i: int| 0 <= i < completion_calls.len() ==> countable(#[trigger] completion_calls[i])
}

/// The response of a run with its model calls numbered in order.
pub open spec fn response_of_run(
    output: RunOutputView,
    completion_calls: Seq<Usage>,
    messages: Option<Seq<MessageView>>,
) -> PromptResponseView {
    PromptResponseView {
        completion_calls: Seq::new(
            completion_calls.len(),
            |i: int|
                CompletionCall { call_index: i as usize, usage: with_total(completion_calls[i]) },
        ),
        messages,
        ..text_response(output.text, with_total(output.usage))
    }
}

/// Makes the response of a run.
pub fn run_response(
    output: crate::effect::RunOutput,
    completion_calls: &Vec<Usage>,
    messages: Option<Vec<Message>>,
) -> (r: PromptResponse)
    requires
        all_countable(output@, completion_calls@),
    ensures
        r@ == response_of_run(output@, completion_calls@, messages.deep_view()),
{
    let mut response = PromptResponse::new(output.text, add_total(output.usage));
    let mut calls: Vec<CompletionCall> = Vec::new();
    let mut i: usize = 0;
    while i < completion_calls.len()
        invariant
            i <= completion_calls@.len(),
            forall|k: int|
                0 <= k < completion_calls@.len() ==> countable(#[trigger] completion_calls@[k]),
            calls@.len() == i,
            forall|k: int|
                0 <= k < i ==> #[trigger] calls@[k] == (CompletionCall {
                    call_index: k as usize,
                    usage: with_total(completion_calls@[k]),
                }),
        decreases completion_calls@.len() - i,
    {
        calls.push(CompletionCall::new(i, add_total(completion_calls[i])));
        i = i + 1;
    }
    proof {
        assert(calls.deep_view() =~= Seq::new(
            completion_calls@.len(),
            |i: int|
                CompletionCall { call_index: i as usize, usage: with_total(completion_calls@[i]) },
        ));
    }
    response.completion_calls = calls;
    response.messages = messages;
    response
}

/// The item of a stream for an event of a local agent.
pub open spec fn item_of(
    event: LocalStreamEventView,
    messages: Option<Seq<MessageView>>,
) -> MultiTurnStreamItemView {
    match event {
        LocalStreamEventView::Delta(text) => MultiTurnStreamItemView::StreamAssistantItem(
            StreamedAssistantContentView::Text(text),
        ),
        LocalStreamEventView::ToolCall { tool_call, internal_call_id } =>
            MultiTurnStreamItemView::StreamAssistantItem(
            StreamedAssistantContentView::ToolCall { tool_call, internal_call_id },
        ),
        LocalStreamEventView::ToolCommitted { tool_call, internal_call_id } =>
            MultiTurnStreamItemView::ToolExecutionCommitted { tool_call, internal_call_id },
        LocalStreamEventView::ToolCallDelta { id, internal_call_id, content } =>
            MultiTurnStreamItemView::StreamAssistantItem(
            StreamedAssistantContentView::ToolCallDelta { id, internal_call_id, content },
        ),
        LocalStreamEventView::Reasoning(reasoning) => MultiTurnStreamItemView::StreamAssistantItem(
            StreamedAssistantContentView::Reasoning(reasoning),
        ),
        LocalStreamEventView::ReasoningDelta { id, reasoning } =>
            MultiTurnStreamItemView::StreamAssistantItem(
            StreamedAssistantContentView::ReasoningDelta { id, reasoning },
        ),
        LocalStreamEventView::Unknown(value) => MultiTurnStreamItemView::StreamAssistantItem(
            StreamedAssistantContentView::Unknown(value),
        ),
        LocalStreamEventView::ToolResult { tool_result, internal_call_id } =>
            MultiTurnStreamItemView::StreamUserItem { tool_result, internal_call_id },
        LocalStreamEventView::Finished { output, completion_calls, .. } =>
            MultiTurnStreamItemView::FinalResponse(
            response_of_run(output, completion_calls, messages),
        ),
    }
}

/// Turns an event of a local agent into the item of a stream. The messages of a finished run are
/// those that its transcript gave, where it gave any.
pub fn stream_item(event: LocalStreamEvent, messages: Option<Vec<Message>>) -> (r:
    MultiTurnStreamItem)
    requires
        match event@ {
            LocalStreamEventView::Finished { output, completion_calls, .. } => all_countable(
                output,
                completion_calls,
            ),
            _ => true,
        },
    ensures
        r@ == item_of(event@, messages.deep_view()),
{
    match event {
        LocalStreamEvent::Delta(text) => MultiTurnStreamItem::StreamAssistantItem(
            StreamedAssistantContent::Text(text),
        ),
        LocalStreamEvent::ToolCall { tool_call, internal_call_id } =>
            MultiTurnStreamItem::StreamAssistantItem(
            StreamedAssistantContent::ToolCall { tool_call, internal_call_id },
        ),
        LocalStreamEvent::ToolCommitted { tool_call, internal_call_id } =>
            MultiTurnStreamItem::ToolExecutionCommitted { tool_call, internal_call_id },
        LocalStreamEvent::ToolCallDelta { id, internal_call_id, content } =>
            MultiTurnStreamItem::StreamAssistantItem(
            StreamedAssistantContent::ToolCallDelta { id, internal_call_id, content },
        ),
        LocalStreamEvent::Reasoning(reasoning) => MultiTurnStreamItem::StreamAssistantItem(
            StreamedAssistantContent::Reasoning(reasoning),
        ),
        LocalStreamEvent::ReasoningDelta { id, reasoning } =>
            MultiTurnStreamItem::StreamAssistantItem(
            StreamedAssistantContent::ReasoningDelta { id, reasoning },
        ),
        LocalStreamEvent::Unknown(value) => MultiTurnStreamItem::StreamAssistantItem(
            StreamedAssistantContent::Unknown(value),
        ),
        LocalStreamEvent::ToolResult { tool_result, internal_call_id } =>
            MultiTurnStreamItem::StreamUserItem { tool_result, internal_call_id },
        LocalStreamEvent::Finished { output, completion_calls, .. } => {
            assert(completion_calls.deep_view() =~= completion_calls@);
            MultiTurnStreamItem::FinalResponse(run_response(output, &completion_calls, messages))
        },
    }
}

impl MultiTurnStreamItem {
    /// Creates a terminal response item from canonical content: its output is all the text in it.
    pub fn final_response(content: Vec<AssistantContent>, usage: CompletionUsage) -> (r: Self)
        ensures
            r@ == MultiTurnStreamItemView::FinalResponse(
                (PromptResponseView {
                    content: content.deep_view(),
                    ..text_response(text_upto(content.deep_view(), content@.len() as int), usage)
                }),
            ),
    {
        let ghost all = content.deep_view();
        let mut output = String::new();
        let mut i: usize = 0;
        while i < content.len()
            invariant
                i <= content@.len(),
                all == content.deep_view(),
                output@ == text_upto(all, i as int),
            decreases content@.len() - i,
        {
            assert(all[i as int] == content@[i as int]@);
            if let AssistantContent::Text(text) = &content[i] {
                output.append(text.as_str());
            }
            i = i + 1;
        }
        let mut response = PromptResponse::new(output, usage);
        response.content = content;
        MultiTurnStreamItem::FinalResponse(response)
    }
}

/// Settings of a prompt that is awaited.
#[derive(Debug)]
pub struct AgentPromptRequest {
    /// The prompt.
    pub prompt: Message,
    /// Messages before the prompt.
    pub history: Vec<Message>,
    /// Model-call budget of the run.
    pub max_model_calls: Option<u32>,
    /// Conversation that the run belongs to.
    pub conversation: Result<Option<StableId>, IdentityError>,
}

/// Settings of a prompt that is awaited with its terminal details.
#[derive(Debug)]
pub struct ExtendedAgentPromptRequest {
    /// The settings.
    pub request: AgentPromptRequest,
}

/// Whether a conversation is the one with an id, or the error for an id that is blank.
pub open spec fn is_conversation(
    conversation: Result<Option<StableId>, IdentityError>,
    id: Seq<char>,
) -> bool {
    match conversation {
        Ok(Some(conversation)) => !is_blank(id) && conversation@ == id,
        Ok(None) => false,
        Err(error) => is_blank(id) && error == IdentityError::Empty,
    }
}

impl AgentPromptRequest {
    /// A prompt with default settings.
    pub fn new(prompt: Message) -> (r: Self)
        ensures
            r.prompt == prompt,
            r.history@ == Seq::<Message>::empty(),
            r.max_model_calls is None,
            r.conversation == Ok::<Option<StableId>, IdentityError>(None),
    {
        AgentPromptRequest {
            prompt,
            history: Vec::new(),
            max_model_calls: None,
            conversation: Ok(None),
        }
    }

    /// Requests terminal details in addition to the response text.
    pub fn extended_details(self) -> (r: ExtendedAgentPromptRequest)
        ensures
            r.request == self,
    {
        ExtendedAgentPromptRequest { request: self }
    }

    /// Routes the run through a conversation-memory store.
    pub fn conversation(self, conversation: String) -> (r: Self)
        ensures
            is_conversation(r.conversation, conversation@),
            r == (AgentPromptRequest { conversation: r.conversation, ..self }),
    {
        let mut r = self;
        r.conversation = match StableId::new(conversation) {
            Ok(id) => Ok(Some(id)),
            Err(error) => Err(error),
        };
        r
    }

    /// Supplies history that is copied into the run at ingress.
    pub fn history(self, history: Vec<Message>) -> (r: Self)
        ensures
            r == (AgentPromptRequest { history, ..self }),
    {
        let mut r = self;
        r.history = history;
        r
    }

    /// Overrides the run's model-call budget.
    pub fn max_turns(self, max_turns: usize) -> (r: Self)
        ensures
            r == (AgentPromptRequest { max_model_calls: Some(clamped(max_turns as nat)), ..self }),
    {
        let mut r = self;
        r.max_model_calls = Some(clamp(max_turns));
        r
    }

    /// The conversation of the run, or the error of the one that was asked for.
    pub fn accepted_conversation(&self) -> (r: Result<Option<StableId>, LocalAgentError>)
        ensures
            match (self.conversation, r) {
                (Ok(conversation), Ok(given)) => given.deep_view() == conversation.deep_view(),
                (Err(error), Err(given)) => given == LocalAgentError::Identity(error),
                _ => false,
            },
    {
        match &self.conversation {
            Ok(Some(conversation)) => Ok(Some(conversation.clone())),
            Ok(None) => Ok(None),
            Err(error) => Err(LocalAgentError::Identity(*error)),
        }
    }
}

/// Settings of a prompt that is streamed.
#[derive(Debug)]
pub struct StreamingPromptRequest {
    /// The settings that it shares with a prompt that is awaited.
    pub request: AgentPromptRequest,
    /// Tool effects that run at once.
    pub tool_concurrency: usize,
}

impl StreamingPromptRequest {
    /// A streamed prompt with default settings.
    pub fn new(prompt: Message) -> (r: Self)
        ensures
            r.request.prompt == prompt,
            r.request.history@ == Seq::<Message>::empty(),
            r.request.max_model_calls is None,
            r.request.conversation == Ok::<Option<StableId>, IdentityError>(None),
            r.tool_concurrency == usize::MAX,
    {
        StreamingPromptRequest {
            request: AgentPromptRequest::new(prompt),
            tool_concurrency: usize::MAX,
        }
    }

    /// Supplies history that is copied into the run at ingress.
    pub fn history(self, history: Vec<Message>) -> (r: Self)
        ensures
            r == (StreamingPromptRequest {
                request: AgentPromptRequest { history, ..self.request },
                ..self
            }),
    {
        StreamingPromptRequest {
            request: self.request.history(history),
            tool_concurrency: self.tool_concurrency,
        }
    }

    /// Overrides the run's model-call budget.
    pub fn max_turns(self, max_turns: usize) -> (r: Self)
        ensures
            r == (StreamingPromptRequest {
                request: AgentPromptRequest {
                    max_model_calls: Some(clamped(max_turns as nat)),
                    ..self.request
                },
                ..self
            }),
    {
        StreamingPromptRequest {
            request: self.request.max_turns(max_turns),
            tool_concurrency: self.tool_concurrency,
        }
    }

    /// Sets the host-side upper bound for concurrent tool effects. Tool results are still
    /// committed in the order of the logical batch.
    pub fn tool_concurrency(self, concurrency: usize) -> (r: Self)
        requires
            concurrency > 0,
        ensures
            r == (StreamingPromptRequest { tool_concurrency: concurrency, ..self }),
    {
        StreamingPromptRequest { request: self.request, tool_concurrency: concurrency }
    }

    /// Routes the stream through a conversation-memory store.
    pub fn conversation(self, conversation: String) -> (r: Self)
        ensures
            is_conversation(r.request.conversation, conversation@),
            r == (StreamingPromptRequest {
                request: AgentPromptRequest {
                    conversation: r.request.conversation,
                    ..self.request
                },
                ..self
            }),
    {
        StreamingPromptRequest {
            request: self.request.conversation(conversation),
            tool_concurrency: self.tool_concurrency,
        }
    }
}

} // verus!
