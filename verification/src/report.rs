//! What a local agent reports: errors, stream events and responses.

use vstd::prelude::*;

use crate::effect::{
    CanonicalError, CanonicalErrorView, RunOutput, RunOutputView, TranscriptEntry,
    TranscriptEntryView, Usage,
};
use crate::identity::IdentityError;
use crate::message::{
    AssistantContent, AssistantContentView, CompletionUsage, Message, MessageView, Reasoning,
    ReasoningView, ToolCall, ToolCallView, ToolResult, ToolResultView,
};
use crate::run::{
    DriveError, EffectIoError, InstallError, SpawnError, SpawnErrorView, StreamReceiveError,
    SubmitError, SubmitErrorView,
};

verus! {

/// Failure of the standalone schedule-driven facade.
#[derive(Debug, PartialEq, Eq)]
pub enum LocalAgentError {
    /// Runtime installation failed.
    Install(InstallError),
    /// Domain construction failed.
    Spawn(SpawnError),
    /// A facade command could not enter the bounded runtime queue.
    Submit(SubmitError),
    /// Immediate schedule progression exceeded its guard.
    Drive(DriveError),
    /// The external effect ingress or outbox failed.
    Effect(EffectIoError),
    /// Incremental subscriber ingress was disconnected.
    Stream(StreamReceiveError),
    /// Stable local identities could not be created.
    Identity(IdentityError),
    /// The canonical model operation failed.
    Canonical(CanonicalError),
    /// The run was cancelled before completion.
    Cancelled,
    /// Another thread panicked while it had exclusive access to the local world.
    RuntimePoisoned,
}

/// What a [`LocalAgentError`] holds.
#[verifier::ext_equal]
pub enum LocalAgentErrorView {
    Install(InstallError),
    Spawn(SpawnErrorView),
    Submit(SubmitErrorView),
    Drive(DriveError),
    Effect(EffectIoError),
    Stream(StreamReceiveError),
    Identity(IdentityError),
    Canonical(CanonicalErrorView),
    Cancelled,
    RuntimePoisoned,
}

impl View for LocalAgentError {
    type V = LocalAgentErrorView;

    open spec fn view(&self) -> LocalAgentErrorView {
        match self {
            LocalAgentError::Install(x) => LocalAgentErrorView::Install(*x),
            LocalAgentError::Spawn(x) => LocalAgentErrorView::Spawn(x@),
            LocalAgentError::Submit(x) => LocalAgentErrorView::Submit(x@),
            LocalAgentError::Drive(x) => LocalAgentErrorView::Drive(*x),
            LocalAgentError::Effect(x) => LocalAgentErrorView::Effect(*x),
            LocalAgentError::Stream(x) => LocalAgentErrorView::Stream(*x),
            LocalAgentError::Identity(x) => LocalAgentErrorView::Identity(*x),
            LocalAgentError::Canonical(x) => LocalAgentErrorView::Canonical(x@),
            LocalAgentError::Cancelled => LocalAgentErrorView::Cancelled,
            LocalAgentError::RuntimePoisoned => LocalAgentErrorView::RuntimePoisoned,
        }
    }
}

impl DeepView for LocalAgentError {
    type V = LocalAgentErrorView;

    open spec fn deep_view(&self) -> LocalAgentErrorView {
        self.view()
    }
}

impl Clone for LocalAgentError {
    fn clone(&self) -> (r: Self)
        ensures
            r@ == self@,
    {
        match self {
            LocalAgentError::Install(x) => LocalAgentError::Install(*x),
            LocalAgentError::Spawn(x) => LocalAgentError::Spawn(x.clone()),
            LocalAgentError::Submit(x) => LocalAgentError::Submit(x.clone()),
            LocalAgentError::Drive(x) => LocalAgentError::Drive(*x),
            LocalAgentError::Effect(x) => LocalAgentError::Effect(*x),
            LocalAgentError::Stream(x) => LocalAgentError::Stream(*x),
            LocalAgentError::Identity(x) => LocalAgentError::Identity(*x),
            LocalAgentError::Canonical(x) => LocalAgentError::Canonical(x.clone()),
            LocalAgentError::Cancelled => LocalAgentError::Cancelled,
            LocalAgentError::RuntimePoisoned => LocalAgentError::RuntimePoisoned,
        }
    }
}

/// Failure of a prompt as its caller sees it.
#[derive(Debug, PartialEq, Eq)]
pub enum PromptError {
    /// A provider or the runtime failed.
    Provider(String),
    /// The model called a tool that was not on offer.
    UnknownToolCall {
        /// Name that the model used.
        tool_name: String,
    },
    /// The run used up its model calls.
    MaxTurns {
        /// Accepted model calls.
        max_turns: usize,
    },
    /// The run was cancelled.
    PromptCancelled {
        /// Why it was cancelled.
        reason: String,
    },
}

/// What a [`PromptError`] holds.
#[verifier::ext_equal]
pub enum PromptErrorView {
    Provider(Seq<char>),
    UnknownToolCall { tool_name: Seq<char> },
    MaxTurns { max_turns: usize },
    PromptCancelled { reason: Seq<char> },
}

impl View for PromptError {
    type V = PromptErrorView;

    open spec fn view(&self) -> PromptErrorView {
        match self {
            PromptError::Provider(x) => PromptErrorView::Provider(x@),
            PromptError::UnknownToolCall { tool_name } => PromptErrorView::UnknownToolCall {
                tool_name: tool_name@,
            },
            PromptError::MaxTurns { max_turns } => PromptErrorView::MaxTurns {
                max_turns: *max_turns,
            },
            PromptError::PromptCancelled { reason } => PromptErrorView::PromptCancelled {
                reason: reason@,
            },
        }
    }
}

impl DeepView for PromptError {
    type V = PromptErrorView;

    open spec fn deep_view(&self) -> PromptErrorView {
        self.view()
    }
}

impl Clone for PromptError {
    fn clone(&self) -> (r: Self)
        ensures
            r@ == self@,
    {
        match self {
            PromptError::Provider(x) => PromptError::Provider(x.clone()),
            PromptError::UnknownToolCall { tool_name } => PromptError::UnknownToolCall {
                tool_name: tool_name.clone(),
            },
            PromptError::MaxTurns { max_turns } => PromptError::MaxTurns {
                max_turns: *max_turns,
            },
            PromptError::PromptCancelled { reason } => PromptError::PromptCancelled {
                reason: reason.clone(),
            },
        }
    }
}

/// Failure observed while streaming one run.
#[derive(Debug, PartialEq, Eq)]
pub enum StreamingError {
    /// Low-level provider failure.
    Completion(String),
    /// Canonical run failure.
    Agent(LocalAgentError),
    /// High-level prompt failure.
    Prompt(PromptError),
}

/// What a [`StreamingError`] holds.
#[verifier::ext_equal]
pub enum StreamingErrorView {
    Completion(Seq<char>),
    Agent(LocalAgentErrorView),
    Prompt(PromptErrorView),
}

impl View for StreamingError {
    type V = StreamingErrorView;

    open spec fn view(&self) -> StreamingErrorView {
        match self {
            StreamingError::Completion(x) => StreamingErrorView::Completion(x@),
            StreamingError::Agent(x) => StreamingErrorView::Agent(x@),
            StreamingError::Prompt(x) => StreamingErrorView::Prompt(x@),
        }
    }
}

impl DeepView for StreamingError {
    type V = StreamingErrorView;

    open spec fn deep_view(&self) -> StreamingErrorView {
        self.view()
    }
}

impl Clone for StreamingError {
    fn clone(&self) -> (r: Self)
        ensures
            r@ == self@,
    {
        match self {
            StreamingError::Completion(x) => StreamingError::Completion(x.clone()),
            StreamingError::Agent(x) => StreamingError::Agent(x.clone()),
            StreamingError::Prompt(x) => StreamingError::Prompt(x.clone()),
        }
    }
}

/// Partial content of a tool call.
#[derive(Debug, PartialEq, Eq)]
pub enum ToolCallDeltaContent {
    /// Name of the tool.
    Name(String),
    /// Part of the arguments.
    Delta(String),
}

/// What a [`ToolCallDeltaContent`] holds.
#[verifier::ext_equal]
pub enum ToolCallDeltaContentView {
    Name(Seq<char>),
    Delta(Seq<char>),
}

impl View for ToolCallDeltaContent {
    type V = ToolCallDeltaContentView;

    open spec fn view(&self) -> ToolCallDeltaContentView {
        match self {
            ToolCallDeltaContent::Name(x) => ToolCallDeltaContentView::Name(x@),
            ToolCallDeltaContent::Delta(x) => ToolCallDeltaContentView::Delta(x@),
        }
    }
}

impl DeepView for ToolCallDeltaContent {
    type V = ToolCallDeltaContentView;

    open spec fn deep_view(&self) -> ToolCallDeltaContentView {
        self.view()
    }
}

impl Clone for ToolCallDeltaContent {
    fn clone(&self) -> (r: Self)
        ensures
            r@ == self@,
    {
        match self {
            ToolCallDeltaContent::Name(x) => ToolCallDeltaContent::Name(x.clone()),
            ToolCallDeltaContent::Delta(x) => ToolCallDeltaContent::Delta(x.clone()),
        }
    }
}

/// Incremental observation from a schedule-driven local agent.
#[derive(Debug, PartialEq, Eq)]
#[allow(inconsistent_fields)]
pub enum LocalStreamEvent {
    /// Ordered provider text delta committed through effect ingress.
    Delta(String),
    /// Complete provider tool call observed during the model effect.
    ToolCall {
        /// Canonical tool call.
        tool_call: ToolCall,
        /// Stream-local correlation identity.
        internal_call_id: String,
    },
    /// Tool call after its logical batch committed successfully.
    ToolCommitted {
        /// Canonical tool call.
        tool_call: ToolCall,
        /// Stream-local correlation identity.
        internal_call_id: String,
    },
    /// Partial provider tool call data.
    ToolCallDelta {
        /// Provider correlation identity.
        id: String,
        /// Stream-local correlation identity.
        internal_call_id: String,
        /// Partial call content.
        content: ToolCallDeltaContent,
    },
    /// Complete provider reasoning block.
    Reasoning(Reasoning),
    /// Partial provider reasoning text.
    ReasoningDelta {
        /// Provider reasoning block identity.
        id: Option<String>,
        /// Partial reasoning text.
        reasoning: String,
    },
    /// Provider-native stream item without a canonical typed representation.
    Unknown(serde_json::Value),
    /// Tool result after its logical batch committed.
    ToolResult {
        /// Model-visible result.
        tool_result: ToolResult,
        /// Stream-local correlation identity.
        internal_call_id: String,
    },
    /// The same terminal output observed by blocking execution.
    Finished {
        /// Terminal output.
        output: RunOutput,
        /// Complete committed transcript.
        transcript: Vec<TranscriptEntry>,
        /// Ordered usage for every committed model operation.
        completion_calls: Vec<Usage>,
    },
}

/// What a [`LocalStreamEvent`] holds.
#[verifier::ext_equal]
#[allow(inconsistent_fields)]
pub enum LocalStreamEventView {
    Delta(Seq<char>),
    ToolCall { tool_call: ToolCallView, internal_call_id: Seq<char> },
    ToolCommitted { tool_call: ToolCallView, internal_call_id: Seq<char> },
    ToolCallDelta { id: Seq<char>, internal_call_id: Seq<char>, content: ToolCallDeltaContentView },
    Reasoning(ReasoningView),
    ReasoningDelta { id: Option<Seq<char>>, reasoning: Seq<char> },
    Unknown(serde_json::Value),
    ToolResult { tool_result: ToolResultView, internal_call_id: Seq<char> },
    Finished { output: RunOutputView, transcript: Seq<TranscriptEntryView>, completion_calls: Seq<Usage> },
}

impl View for LocalStreamEvent {
    type V = LocalStreamEventView;

    open spec fn view(&self) -> LocalStreamEventView {
        match self {
            LocalStreamEvent::Delta(x) => LocalStreamEventView::Delta(x@),
            LocalStreamEvent::ToolCall { tool_call, internal_call_id } => LocalStreamEventView::ToolCall {
                tool_call: tool_call@,
                internal_call_id: internal_call_id@,
            },
            LocalStreamEvent::ToolCommitted { tool_call, internal_call_id } => LocalStreamEventView::ToolCommitted {
                tool_call: tool_call@,
                internal_call_id: internal_call_id@,
            },
            LocalStreamEvent::ToolCallDelta { id, internal_call_id, content } => LocalStreamEventView::ToolCallDelta {
                id: id@,
                internal_call_id: internal_call_id@,
                content: content@,
            },
            LocalStreamEvent::Reasoning(x) => LocalStreamEventView::Reasoning(x@),
            LocalStreamEvent::ReasoningDelta { id, reasoning } => LocalStreamEventView::ReasoningDelta {
                id: id.deep_view(),
                reasoning: reasoning@,
            },
            LocalStreamEvent::Unknown(x) => LocalStreamEventView::Unknown(*x),
            LocalStreamEvent::ToolResult { tool_result, internal_call_id } => LocalStreamEventView::ToolResult {
                tool_result: tool_result@,
                internal_call_id: internal_call_id@,
            },
            LocalStreamEvent::Finished { output, transcript, completion_calls } => LocalStreamEventView::Finished {
                output: output@,
                transcript: transcript.deep_view(),
                completion_calls: completion_calls@,
            },
        }
    }
}

impl DeepView for LocalStreamEvent {
    type V = LocalStreamEventView;

    open spec fn deep_view(&self) -> LocalStreamEventView {
        self.view()
    }
}

impl Clone for LocalStreamEvent {
    fn clone(&self) -> (r: Self)
        ensures
            r@ == self@,
    {
        let r = match self {
            LocalStreamEvent::Delta(x) => LocalStreamEvent::Delta(x.clone()),
            LocalStreamEvent::ToolCall { tool_call, internal_call_id } => LocalStreamEvent::ToolCall {
                tool_call: tool_call.clone(),
                internal_call_id: internal_call_id.clone(),
            },
            LocalStreamEvent::ToolCommitted { tool_call, internal_call_id } => LocalStreamEvent::ToolCommitted {
                tool_call: tool_call.clone(),
                internal_call_id: internal_call_id.clone(),
            },
            LocalStreamEvent::ToolCallDelta { id, internal_call_id, content } => LocalStreamEvent::ToolCallDelta {
                id: id.clone(),
                internal_call_id: internal_call_id.clone(),
                content: content.clone(),
            },
            LocalStreamEvent::Reasoning(x) => LocalStreamEvent::Reasoning(x.clone()),
            LocalStreamEvent::ReasoningDelta { id, reasoning } => LocalStreamEvent::ReasoningDelta {
                id: id.clone(),
                reasoning: reasoning.clone(),
            },
            LocalStreamEvent::Unknown(x) => LocalStreamEvent::Unknown(x.clone()),
            LocalStreamEvent::ToolResult { tool_result, internal_call_id } => LocalStreamEvent::ToolResult {
                tool_result: tool_result.clone(),
                internal_call_id: internal_call_id.clone(),
            },
            LocalStreamEvent::Finished { output, transcript, completion_calls } => LocalStreamEvent::Finished {
                output: output.clone(),
                transcript: transcript.clone(),
                completion_calls: completion_calls.clone(),
            },
        };
        assert(r@ =~~= self@);
        r
    }
}

/// Terminal result of one run with its details.
#[derive(Debug, PartialEq, Eq)]
pub struct LocalRunResult {
    /// Terminal output.
    pub output: RunOutput,
    /// Complete committed transcript.
    pub transcript: Vec<TranscriptEntry>,
    /// Ordered usage for every committed model operation.
    pub completion_calls: Vec<Usage>,
}

/// What a [`LocalRunResult`] holds.
#[verifier::ext_equal]
pub struct LocalRunResultView {
    pub output: RunOutputView,
    pub transcript: Seq<TranscriptEntryView>,
    pub completion_calls: Seq<Usage>,
}

impl View for LocalRunResult {
    type V = LocalRunResultView;

    open spec fn view(&self) -> LocalRunResultView {
        LocalRunResultView {
            output: self.output@,
            transcript: self.transcript.deep_view(),
            completion_calls: self.completion_calls@,
        }
    }
}

impl DeepView for LocalRunResult {
    type V = LocalRunResultView;

    open spec fn deep_view(&self) -> LocalRunResultView {
        self.view()
    }
}

impl Clone for LocalRunResult {
    fn clone(&self) -> (r: Self)
        ensures
            r@ == self@,
    {
        let r = LocalRunResult {
            output: self.output.clone(),
            transcript: self.transcript.clone(),
            completion_calls: self.completion_calls.clone(),
        };
        assert(r.transcript.deep_view() =~= self.transcript.deep_view());
        assert(r.completion_calls@ =~= self.completion_calls@);
        r
    }
}

/// One item of a provider stream.
#[derive(Debug, PartialEq, Eq)]
#[allow(inconsistent_fields)]
pub enum StreamedAssistantContent {
    /// Text.
    Text(String),
    /// Complete tool call.
    ToolCall {
        /// Canonical tool call.
        tool_call: ToolCall,
        /// Stream-local correlation identity.
        internal_call_id: String,
    },
    /// Partial tool call data.
    ToolCallDelta {
        /// Provider correlation identity.
        id: String,
        /// Stream-local correlation identity.
        internal_call_id: String,
        /// Partial call content.
        content: ToolCallDeltaContent,
    },
    /// Complete reasoning block.
    Reasoning(Reasoning),
    /// Partial reasoning text.
    ReasoningDelta {
        /// Provider reasoning block identity.
        id: Option<String>,
        /// Partial reasoning text.
        reasoning: String,
    },
    /// Provider-native item.
    Unknown(serde_json::Value),
    /// End of the provider stream.
    Last,
}

/// What a [`StreamedAssistantContent`] holds.
#[verifier::ext_equal]
#[allow(inconsistent_fields)]
pub enum StreamedAssistantContentView {
    Text(Seq<char>),
    ToolCall { tool_call: ToolCallView, internal_call_id: Seq<char> },
    ToolCallDelta { id: Seq<char>, internal_call_id: Seq<char>, content: ToolCallDeltaContentView },
    Reasoning(ReasoningView),
    ReasoningDelta { id: Option<Seq<char>>, reasoning: Seq<char> },
    Unknown(serde_json::Value),
    Last,
}

impl View for StreamedAssistantContent {
    type V = StreamedAssistantContentView;

    open spec fn view(&self) -> StreamedAssistantContentView {
        match self {
            StreamedAssistantContent::Text(x) => StreamedAssistantContentView::Text(x@),
            StreamedAssistantContent::ToolCall { tool_call, internal_call_id } => StreamedAssistantContentView::ToolCall {
                tool_call: tool_call@,
                internal_call_id: internal_call_id@,
            },
            StreamedAssistantContent::ToolCallDelta { id, internal_call_id, content } => StreamedAssistantContentView::ToolCallDelta {
                id: id@,
                internal_call_id: internal_call_id@,
                content: content@,
            },
            StreamedAssistantContent::Reasoning(x) => StreamedAssistantContentView::Reasoning(x@),
            StreamedAssistantContent::ReasoningDelta { id, reasoning } => StreamedAssistantContentView::ReasoningDelta {
                id: id.deep_view(),
                reasoning: reasoning@,
            },
            StreamedAssistantContent::Unknown(x) => StreamedAssistantContentView::Unknown(*x),
            StreamedAssistantContent::Last => StreamedAssistantContentView::Last,
        }
    }
}

impl DeepView for StreamedAssistantContent {
    type V = StreamedAssistantContentView;

    open spec fn deep_view(&self) -> StreamedAssistantContentView {
        self.view()
    }
}

impl Clone for StreamedAssistantContent {
    fn clone(&self) -> (r: Self)
        ensures
            r@ == self@,
    {
        let r = match self {
            StreamedAssistantContent::Text(x) => StreamedAssistantContent::Text(x.clone()),
            StreamedAssistantContent::ToolCall { tool_call, internal_call_id } => StreamedAssistantContent::ToolCall {
                tool_call: tool_call.clone(),
                internal_call_id: internal_call_id.clone(),
            },
            StreamedAssistantContent::ToolCallDelta { id, internal_call_id, content } => StreamedAssistantContent::ToolCallDelta {
                id: id.clone(),
                internal_call_id: internal_call_id.clone(),
                content: content.clone(),
            },
            StreamedAssistantContent::Reasoning(x) => StreamedAssistantContent::Reasoning(x.clone()),
            StreamedAssistantContent::ReasoningDelta { id, reasoning } => StreamedAssistantContent::ReasoningDelta {
                id: id.clone(),
                reasoning: reasoning.clone(),
            },
            StreamedAssistantContent::Unknown(x) => StreamedAssistantContent::Unknown(x.clone()),
            StreamedAssistantContent::Last => StreamedAssistantContent::Last,
        };
        assert(r@ =~~= self@);
        r
    }
}

/// Details for one model operation committed by a run.
#[derive(Clone, Copy, Debug, PartialEq, Eq, Structural)]
pub struct CompletionCall {
    /// Zero-based model-operation index.
    pub call_index: usize,
    /// Provider-reported usage for this operation.
    pub usage: CompletionUsage,
}

impl View for CompletionCall {
    type V = Self;

    open spec fn view(&self) -> Self {
        *self
    }
}

impl DeepView for CompletionCall {
    type V = Self;

    open spec fn deep_view(&self) -> Self {
        self.view()
    }
}

/// Terminal response observed from a run.
#[derive(Debug, PartialEq, Eq)]
pub struct PromptResponse {
    /// Concatenated assistant text.
    pub output: String,
    /// Usage accumulated by the run.
    pub usage: CompletionUsage,
    /// Successfully committed model operations.
    pub completion_calls: Vec<CompletionCall>,
    /// Optional canonical history when requested by a chat facade.
    pub messages: Option<Vec<Message>>,
    /// Canonical final assistant content.
    pub content: Vec<AssistantContent>,
}

/// What a [`PromptResponse`] holds.
#[verifier::ext_equal]
pub struct PromptResponseView {
    pub output: Seq<char>,
    pub usage: CompletionUsage,
    pub completion_calls: Seq<CompletionCall>,
    pub messages: Option<Seq<MessageView>>,
    pub content: Seq<AssistantContentView>,
}

impl View for PromptResponse {
    type V = PromptResponseView;

    open spec fn view(&self) -> PromptResponseView {
        PromptResponseView {
            output: self.output@,
            usage: self.usage,
            completion_calls: self.completion_calls@,
            messages: self.messages.deep_view(),
            content: self.content.deep_view(),
        }
    }
}

impl DeepView for PromptResponse {
    type V = PromptResponseView;

    open spec fn deep_view(&self) -> PromptResponseView {
        self.view()
    }
}

impl Clone for PromptResponse {
    fn clone(&self) -> (r: Self)
        ensures
            r@ == self@,
    {
        let r = PromptResponse {
            output: self.output.clone(),
            usage: self.usage,
            completion_calls: self.completion_calls.clone(),
            messages: self.messages.clone(),
            content: self.content.clone(),
        };
        assert(r.completion_calls@ =~= self.completion_calls@);
        assert(r.messages.deep_view() =~= self.messages.deep_view());
        assert(r.content.deep_view() =~= self.content.deep_view());
        r
    }
}

/// Ordered observation emitted by a streaming run.
#[derive(Debug, PartialEq, Eq)]
pub enum MultiTurnStreamItem {
    /// Incremental assistant content.
    StreamAssistantItem(StreamedAssistantContent),
    /// A tool call whose logical batch committed successfully.
    ToolExecutionCommitted {
        /// Canonical tool call.
        tool_call: ToolCall,
        /// Stream-local correlation identity.
        internal_call_id: String,
    },
    /// A canonical tool result committed to the run transcript.
    StreamUserItem {
        /// Model-visible result.
        tool_result: ToolResult,
        /// Stream-local correlation identity.
        internal_call_id: String,
    },
    /// Details for one committed model operation.
    CompletionCall(CompletionCall),
    /// Terminal output from the same run state used by blocking execution.
    FinalResponse(PromptResponse),
}

/// What a [`MultiTurnStreamItem`] holds.
#[verifier::ext_equal]
pub enum MultiTurnStreamItemView {
    StreamAssistantItem(StreamedAssistantContentView),
    ToolExecutionCommitted { tool_call: ToolCallView, internal_call_id: Seq<char> },
    StreamUserItem { tool_result: ToolResultView, internal_call_id: Seq<char> },
    CompletionCall(CompletionCall),
    FinalResponse(PromptResponseView),
}

impl View for MultiTurnStreamItem {
    type V = MultiTurnStreamItemView;

    open spec fn view(&self) -> MultiTurnStreamItemView {
        match self {
            MultiTurnStreamItem::StreamAssistantItem(x) => MultiTurnStreamItemView::StreamAssistantItem(x@),
            MultiTurnStreamItem::ToolExecutionCommitted { tool_call, internal_call_id } => MultiTurnStreamItemView::ToolExecutionCommitted {
                tool_call: tool_call@,
                internal_call_id: internal_call_id@,
            },
            MultiTurnStreamItem::StreamUserItem { tool_result, internal_call_id } => MultiTurnStreamItemView::StreamUserItem {
                tool_result: tool_result@,
                internal_call_id: internal_call_id@,
            },
            MultiTurnStreamItem::CompletionCall(x) => MultiTurnStreamItemView::CompletionCall(*x),
            MultiTurnStreamItem::FinalResponse(x) => MultiTurnStreamItemView::FinalResponse(x@),
        }
    }
}

impl DeepView for MultiTurnStreamItem {
    type V = MultiTurnStreamItemView;

    open spec fn deep_view(&self) -> MultiTurnStreamItemView {
        self.view()
    }
}

impl Clone for MultiTurnStreamItem {
    fn clone(&self) -> (r: Self)
        ensures
            r@ == self@,
    {
        match self {
            MultiTurnStreamItem::StreamAssistantItem(x) => MultiTurnStreamItem::StreamAssistantItem(x.clone()),
            MultiTurnStreamItem::ToolExecutionCommitted { tool_call, internal_call_id } => MultiTurnStreamItem::ToolExecutionCommitted {
                tool_call: tool_call.clone(),
                internal_call_id: internal_call_id.clone(),
            },
            MultiTurnStreamItem::StreamUserItem { tool_result, internal_call_id } => MultiTurnStreamItem::StreamUserItem {
                tool_result: tool_result.clone(),
                internal_call_id: internal_call_id.clone(),
            },
            MultiTurnStreamItem::CompletionCall(x) => MultiTurnStreamItem::CompletionCall(*x),
            MultiTurnStreamItem::FinalResponse(x) => MultiTurnStreamItem::FinalResponse(x.clone()),
        }
    }
}

} // verus!
