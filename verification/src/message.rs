//! Canonical messages, model requests and model responses.

use vstd::prelude::*;

use crate::capability::{
    ModelToolChoice, ModelToolChoiceView, RetrievedDocument, RetrievedDocumentView,
};
use crate::effect::{ModelToolCall, ModelToolCallView, Usage};

verus! {

/// Function that a tool call names.
#[derive(Debug, PartialEq, Eq)]
pub struct ToolFunction {
    /// Name of the function.
    pub name: String,
    /// Arguments as the model gave them.
    pub arguments: serde_json::Value,
}

/// What a [`ToolFunction`] holds.
#[verifier::ext_equal]
pub struct ToolFunctionView {
    pub name: Seq<char>,
    pub arguments: serde_json::Value,
}

impl View for ToolFunction {
    type V = ToolFunctionView;

    open spec fn view(&self) -> ToolFunctionView {
        ToolFunctionView {
            name: self.name@,
            arguments: self.arguments,
        }
    }
}

impl DeepView for ToolFunction {
    type V = ToolFunctionView;

    open spec fn deep_view(&self) -> ToolFunctionView {
        self.view()
    }
}

impl Clone for ToolFunction {
    fn clone(&self) -> (r: Self)
        ensures
            r@ == self@,
    {
        ToolFunction {
            name: self.name.clone(),
            arguments: self.arguments.clone(),
        }
    }
}

/// Tool call as a provider states it.
#[derive(Debug, PartialEq, Eq)]
pub struct ToolCall {
    /// Provider item id.
    pub id: String,
    /// Provider correlation id, where there is one.
    pub call_id: Option<String>,
    /// What is called.
    pub function: ToolFunction,
}

/// What a [`ToolCall`] holds.
#[verifier::ext_equal]
pub struct ToolCallView {
    pub id: Seq<char>,
    pub call_id: Option<Seq<char>>,
    pub function: ToolFunctionView,
}

impl View for ToolCall {
    type V = ToolCallView;

    open spec fn view(&self) -> ToolCallView {
        ToolCallView {
            id: self.id@,
            call_id: self.call_id.deep_view(),
            function: self.function@,
        }
    }
}

impl DeepView for ToolCall {
    type V = ToolCallView;

    open spec fn deep_view(&self) -> ToolCallView {
        self.view()
    }
}

impl Clone for ToolCall {
    fn clone(&self) -> (r: Self)
        ensures
            r@ == self@,
    {
        let r = ToolCall {
            id: self.id.clone(),
            call_id: self.call_id.clone(),
            function: self.function.clone(),
        };
        assert(r.call_id.deep_view() =~= self.call_id.deep_view());
        r
    }
}

/// Reasoning block of a model.
#[derive(Debug, PartialEq, Eq)]
pub struct Reasoning {
    /// Provider block id, where there is one.
    pub id: Option<String>,
    /// Text that the block shows.
    pub display_text: String,
    /// Encoded block.
    pub content: serde_json::Value,
}

/// What a [`Reasoning`] holds.
#[verifier::ext_equal]
pub struct ReasoningView {
    pub id: Option<Seq<char>>,
    pub display_text: Seq<char>,
    pub content: serde_json::Value,
}

impl View for Reasoning {
    type V = ReasoningView;

    open spec fn view(&self) -> ReasoningView {
        ReasoningView {
            id: self.id.deep_view(),
            display_text: self.display_text@,
            content: self.content,
        }
    }
}

impl DeepView for Reasoning {
    type V = ReasoningView;

    open spec fn deep_view(&self) -> ReasoningView {
        self.view()
    }
}

impl Clone for Reasoning {
    fn clone(&self) -> (r: Self)
        ensures
            r@ == self@,
    {
        let r = Reasoning {
            id: self.id.clone(),
            display_text: self.display_text.clone(),
            content: self.content.clone(),
        };
        assert(r.id.deep_view() =~= self.id.deep_view());
        r
    }
}

/// One part of a tool result.
#[derive(Debug, PartialEq, Eq)]
pub enum ToolResultContent {
    /// Plain text.
    Text(String),
    /// Any other part, encoded.
    Other(serde_json::Value),
}

/// What a [`ToolResultContent`] holds.
#[verifier::ext_equal]
pub enum ToolResultContentView {
    Text(Seq<char>),
    Other(serde_json::Value),
}

impl View for ToolResultContent {
    type V = ToolResultContentView;

    open spec fn view(&self) -> ToolResultContentView {
        match self {
            ToolResultContent::Text(x) => ToolResultContentView::Text(x@),
            ToolResultContent::Other(x) => ToolResultContentView::Other(*x),
        }
    }
}

impl DeepView for ToolResultContent {
    type V = ToolResultContentView;

    open spec fn deep_view(&self) -> ToolResultContentView {
        self.view()
    }
}

impl Clone for ToolResultContent {
    fn clone(&self) -> (r: Self)
        ensures
            r@ == self@,
    {
        match self {
            ToolResultContent::Text(x) => ToolResultContent::Text(x.clone()),
            ToolResultContent::Other(x) => ToolResultContent::Other(x.clone()),
        }
    }
}

/// Tool result as a provider takes it.
#[derive(Debug, PartialEq, Eq)]
pub struct ToolResult {
    /// Provider item id.
    pub id: String,
    /// Provider correlation id, where there is one.
    pub call_id: Option<String>,
    /// Parts of the result.
    pub content: Vec<ToolResultContent>,
}

/// What a [`ToolResult`] holds.
#[verifier::ext_equal]
pub struct ToolResultView {
    pub id: Seq<char>,
    pub call_id: Option<Seq<char>>,
    pub content: Seq<ToolResultContentView>,
}

impl View for ToolResult {
    type V = ToolResultView;

    open spec fn view(&self) -> ToolResultView {
        ToolResultView {
            id: self.id@,
            call_id: self.call_id.deep_view(),
            content: self.content.deep_view(),
        }
    }
}

impl DeepView for ToolResult {
    type V = ToolResultView;

    open spec fn deep_view(&self) -> ToolResultView {
        self.view()
    }
}

impl Clone for ToolResult {
    fn clone(&self) -> (r: Self)
        ensures
            r@ == self@,
    {
        let r = ToolResult {
            id: self.id.clone(),
            call_id: self.call_id.clone(),
            content: self.content.clone(),
        };
        assert(r.call_id.deep_view() =~= self.call_id.deep_view());
        assert(r.content.deep_view() =~= self.content.deep_view());
        r
    }
}

/// One part of a user message.
#[derive(Debug, PartialEq, Eq)]
pub enum UserContent {
    /// Plain text.
    Text(String),
    /// Result of a tool call.
    ToolResult(ToolResult),
    /// Any other part, encoded.
    Other(serde_json::Value),
}

/// What a [`UserContent`] holds.
#[verifier::ext_equal]
pub enum UserContentView {
    Text(Seq<char>),
    ToolResult(ToolResultView),
    Other(serde_json::Value),
}

impl View for UserContent {
    type V = UserContentView;

    open spec fn view(&self) -> UserContentView {
        match self {
            UserContent::Text(x) => UserContentView::Text(x@),
            UserContent::ToolResult(x) => UserContentView::ToolResult(x@),
            UserContent::Other(x) => UserContentView::Other(*x),
        }
    }
}

impl DeepView for UserContent {
    type V = UserContentView;

    open spec fn deep_view(&self) -> UserContentView {
        self.view()
    }
}

impl Clone for UserContent {
    fn clone(&self) -> (r: Self)
        ensures
            r@ == self@,
    {
        match self {
            UserContent::Text(x) => UserContent::Text(x.clone()),
            UserContent::ToolResult(x) => UserContent::ToolResult(x.clone()),
            UserContent::Other(x) => UserContent::Other(x.clone()),
        }
    }
}

/// One part of an assistant message.
#[derive(Debug, PartialEq, Eq)]
pub enum AssistantContent {
    /// Plain text.
    Text(String),
    /// Tool call.
    ToolCall(ToolCall),
    /// Reasoning block.
    Reasoning(Reasoning),
    /// Image, encoded.
    Image(serde_json::Value),
}

/// What a [`AssistantContent`] holds.
#[verifier::ext_equal]
pub enum AssistantContentView {
    Text(Seq<char>),
    ToolCall(ToolCallView),
    Reasoning(ReasoningView),
    Image(serde_json::Value),
}

impl View for AssistantContent {
    type V = AssistantContentView;

    open spec fn view(&self) -> AssistantContentView {
        match self {
            AssistantContent::Text(x) => AssistantContentView::Text(x@),
            AssistantContent::ToolCall(x) => AssistantContentView::ToolCall(x@),
            AssistantContent::Reasoning(x) => AssistantContentView::Reasoning(x@),
            AssistantContent::Image(x) => AssistantContentView::Image(*x),
        }
    }
}

impl DeepView for AssistantContent {
    type V = AssistantContentView;

    open spec fn deep_view(&self) -> AssistantContentView {
        self.view()
    }
}

impl Clone for AssistantContent {
    fn clone(&self) -> (r: Self)
        ensures
            r@ == self@,
    {
        match self {
            AssistantContent::Text(x) => AssistantContent::Text(x.clone()),
            AssistantContent::ToolCall(x) => AssistantContent::ToolCall(x.clone()),
            AssistantContent::Reasoning(x) => AssistantContent::Reasoning(x.clone()),
            AssistantContent::Image(x) => AssistantContent::Image(x.clone()),
        }
    }
}

/// Canonical conversation message.
#[derive(Debug, PartialEq, Eq)]
#[allow(inconsistent_fields)]
pub enum Message {
    /// System instructions.
    System(String),
    /// Message of the user.
    User {
        /// Parts of the message.
        content: Vec<UserContent>,
    },
    /// Message of the model.
    Assistant {
        /// Provider message id, where there is one.
        id: Option<String>,
        /// Parts of the message.
        content: Vec<AssistantContent>,
    },
}

/// What a [`Message`] holds.
#[verifier::ext_equal]
#[allow(inconsistent_fields)]
pub enum MessageView {
    System(Seq<char>),
    User { content: Seq<UserContentView> },
    Assistant { id: Option<Seq<char>>, content: Seq<AssistantContentView> },
}

impl View for Message {
    type V = MessageView;

    open spec fn view(&self) -> MessageView {
        match self {
            Message::System(x) => MessageView::System(x@),
            Message::User { content } => MessageView::User {
                content: content.deep_view(),
            },
            Message::Assistant { id, content } => MessageView::Assistant {
                id: id.deep_view(),
                content: content.deep_view(),
            },
        }
    }
}

impl DeepView for Message {
    type V = MessageView;

    open spec fn deep_view(&self) -> MessageView {
        self.view()
    }
}

impl Clone for Message {
    fn clone(&self) -> (r: Self)
        ensures
            r@ == self@,
    {
        let r = match self {
            Message::System(x) => Message::System(x.clone()),
            Message::User { content } => Message::User {
                content: content.clone(),
            },
            Message::Assistant { id, content } => Message::Assistant {
                id: id.clone(),
                content: content.clone(),
            },
        };
        assert(r@ =~~= self@);
        r
    }
}

/// What decoding the encoded part of a transcript entry gave.
#[derive(Debug, PartialEq, Eq)]
pub enum DecodedEntry {
    /// A whole message.
    Message(Message),
    /// The reason why it could not be decoded.
    Refused(String),
    /// Parts of a tool result.
    Contents(Vec<ToolResultContent>),
    /// The entry has no encoded part.
    Nothing,
}

/// What a [`DecodedEntry`] holds.
#[verifier::ext_equal]
pub enum DecodedEntryView {
    Message(MessageView),
    Refused(Seq<char>),
    Contents(Seq<ToolResultContentView>),
    Nothing,
}

impl View for DecodedEntry {
    type V = DecodedEntryView;

    open spec fn view(&self) -> DecodedEntryView {
        match self {
            DecodedEntry::Message(x) => DecodedEntryView::Message(x@),
            DecodedEntry::Refused(x) => DecodedEntryView::Refused(x@),
            DecodedEntry::Contents(x) => DecodedEntryView::Contents(x.deep_view()),
            DecodedEntry::Nothing => DecodedEntryView::Nothing,
        }
    }
}

impl DeepView for DecodedEntry {
    type V = DecodedEntryView;

    open spec fn deep_view(&self) -> DecodedEntryView {
        self.view()
    }
}

impl Clone for DecodedEntry {
    fn clone(&self) -> (r: Self)
        ensures
            r@ == self@,
    {
        let r = match self {
            DecodedEntry::Message(x) => DecodedEntry::Message(x.clone()),
            DecodedEntry::Refused(x) => DecodedEntry::Refused(x.clone()),
            DecodedEntry::Contents(x) => DecodedEntry::Contents(x.clone()),
            DecodedEntry::Nothing => DecodedEntry::Nothing,
        };
        assert(r@ =~~= self@);
        r
    }
}

/// Tool as it is offered to a model.
#[derive(Debug, PartialEq, Eq)]
pub struct ToolDefinition {
    /// Name of the tool.
    pub name: String,
    /// What the tool does.
    pub description: String,
    /// JSON schema of its arguments.
    pub parameters: serde_json::Value,
}

/// What a [`ToolDefinition`] holds.
#[verifier::ext_equal]
pub struct ToolDefinitionView {
    pub name: Seq<char>,
    pub description: Seq<char>,
    pub parameters: serde_json::Value,
}

impl View for ToolDefinition {
    type V = ToolDefinitionView;

    open spec fn view(&self) -> ToolDefinitionView {
        ToolDefinitionView {
            name: self.name@,
            description: self.description@,
            parameters: self.parameters,
        }
    }
}

impl DeepView for ToolDefinition {
    type V = ToolDefinitionView;

    open spec fn deep_view(&self) -> ToolDefinitionView {
        self.view()
    }
}

impl Clone for ToolDefinition {
    fn clone(&self) -> (r: Self)
        ensures
            r@ == self@,
    {
        ToolDefinition {
            name: self.name.clone(),
            description: self.description.clone(),
            parameters: self.parameters.clone(),
        }
    }
}

/// Provider-independent model request.
#[derive(Debug, PartialEq, Eq)]
pub struct CompletionRequest {
    /// Model to use, where one is named.
    pub model: Option<String>,
    /// Messages, the last of them the one to answer.
    pub chat_history: Vec<Message>,
    /// Context documents.
    pub documents: Vec<RetrievedDocument>,
    /// Tools on offer.
    pub tools: Vec<ToolDefinition>,
    /// Bits of the sampling temperature.
    pub temperature_bits: Option<u64>,
    /// Output-token limit.
    pub max_tokens: Option<u64>,
    /// Tool-selection behaviour.
    pub tool_choice: Option<ModelToolChoice>,
    /// Provider-specific parameters.
    pub additional_params: Option<serde_json::Value>,
    /// Native structured-output schema.
    pub output_schema: Option<serde_json::Value>,
}

/// What a [`CompletionRequest`] holds.
#[verifier::ext_equal]
pub struct CompletionRequestView {
    pub model: Option<Seq<char>>,
    pub chat_history: Seq<MessageView>,
    pub documents: Seq<RetrievedDocumentView>,
    pub tools: Seq<ToolDefinitionView>,
    pub temperature_bits: Option<u64>,
    pub max_tokens: Option<u64>,
    pub tool_choice: Option<ModelToolChoiceView>,
    pub additional_params: Option<serde_json::Value>,
    pub output_schema: Option<serde_json::Value>,
}

impl View for CompletionRequest {
    type V = CompletionRequestView;

    open spec fn view(&self) -> CompletionRequestView {
        CompletionRequestView {
            model: self.model.deep_view(),
            chat_history: self.chat_history.deep_view(),
            documents: self.documents.deep_view(),
            tools: self.tools.deep_view(),
            temperature_bits: self.temperature_bits,
            max_tokens: self.max_tokens,
            tool_choice: self.tool_choice.deep_view(),
            additional_params: self.additional_params,
            output_schema: self.output_schema,
        }
    }
}

impl DeepView for CompletionRequest {
    type V = CompletionRequestView;

    open spec fn deep_view(&self) -> CompletionRequestView {
        self.view()
    }
}

impl Clone for CompletionRequest {
    fn clone(&self) -> (r: Self)
        ensures
            r@ == self@,
    {
        let r = CompletionRequest {
            model: self.model.clone(),
            chat_history: self.chat_history.clone(),
            documents: self.documents.clone(),
            tools: self.tools.clone(),
            temperature_bits: self.temperature_bits,
            max_tokens: self.max_tokens,
            tool_choice: self.tool_choice.clone(),
            additional_params: self.additional_params.clone(),
            output_schema: self.output_schema.clone(),
        };
        assert(r.model.deep_view() =~= self.model.deep_view());
        assert(r.chat_history.deep_view() =~= self.chat_history.deep_view());
        assert(r.documents.deep_view() =~= self.documents.deep_view());
        assert(r.tools.deep_view() =~= self.tools.deep_view());
        assert(r.tool_choice.deep_view() =~= self.tool_choice.deep_view());
        r
    }
}

/// Token usage as a provider reports it.
#[derive(Clone, Copy, Debug, PartialEq, Eq, Structural)]
pub struct CompletionUsage {
    /// Input tokens.
    pub input_tokens: u64,
    /// Output tokens.
    pub output_tokens: u64,
    /// All tokens.
    pub total_tokens: u64,
}

impl View for CompletionUsage {
    type V = Self;

    open spec fn view(&self) -> Self {
        *self
    }
}

impl DeepView for CompletionUsage {
    type V = Self;

    open spec fn deep_view(&self) -> Self {
        self.view()
    }
}

/// Model response before its assistant message is encoded.
#[derive(Debug, PartialEq, Eq)]
pub struct NormalizedOutput {
    /// Message that keeps the content of the response, where it has any.
    pub assistant_message: Option<Message>,
    /// All text of the response.
    pub text: String,
    /// Usage of the call.
    pub usage: Usage,
    /// Tool calls with unique ids.
    pub tool_calls: Vec<ModelToolCall>,
}

/// What a [`NormalizedOutput`] holds.
#[verifier::ext_equal]
pub struct NormalizedOutputView {
    pub assistant_message: Option<MessageView>,
    pub text: Seq<char>,
    pub usage: Usage,
    pub tool_calls: Seq<ModelToolCallView>,
}

impl View for NormalizedOutput {
    type V = NormalizedOutputView;

    open spec fn view(&self) -> NormalizedOutputView {
        NormalizedOutputView {
            assistant_message: self.assistant_message.deep_view(),
            text: self.text@,
            usage: self.usage,
            tool_calls: self.tool_calls.deep_view(),
        }
    }
}

impl DeepView for NormalizedOutput {
    type V = NormalizedOutputView;

    open spec fn deep_view(&self) -> NormalizedOutputView {
        self.view()
    }
}

impl Clone for NormalizedOutput {
    fn clone(&self) -> (r: Self)
        ensures
            r@ == self@,
    {
        let r = NormalizedOutput {
            assistant_message: self.assistant_message.clone(),
            text: self.text.clone(),
            usage: self.usage,
            tool_calls: self.tool_calls.clone(),
        };
        assert(r.assistant_message.deep_view() =~= self.assistant_message.deep_view());
        assert(r.tool_calls.deep_view() =~= self.tool_calls.deep_view());
        r
    }
}

} // verus!
