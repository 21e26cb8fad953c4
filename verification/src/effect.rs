//! Owned values that cross the effect boundary.

use vstd::prelude::*;

use crate::capability::{
    ModelToolChoice, ModelToolChoiceView, RetrievedDocument, RetrievedDocumentView,
};
use crate::column::Entity;
use crate::identity::{StableId, TenantId};

verus! {

/// Canonical token usage.
#[derive(Clone, Copy, Debug, PartialEq, Eq, Structural)]
pub struct Usage {
    /// Input tokens.
    pub input_tokens: u64,
    /// Output tokens.
    pub output_tokens: u64,
}

impl View for Usage {
    type V = Self;

    open spec fn view(&self) -> Self {
        *self
    }
}

impl DeepView for Usage {
    type V = Self;

    open spec fn deep_view(&self) -> Self {
        self.view()
    }
}

/// Terminal run output.
#[derive(Debug, PartialEq, Eq)]
pub struct RunOutput {
    /// Final model text.
    pub text: String,
    /// Provider-reported usage.
    pub usage: Usage,
}

/// What a [`RunOutput`] holds.
#[verifier::ext_equal]
pub struct RunOutputView {
    pub text: Seq<char>,
    pub usage: Usage,
}

impl View for RunOutput {
    type V = RunOutputView;

    open spec fn view(&self) -> RunOutputView {
        RunOutputView {
            text: self.text@,
            usage: self.usage,
        }
    }
}

impl DeepView for RunOutput {
    type V = RunOutputView;

    open spec fn deep_view(&self) -> RunOutputView {
        self.view()
    }
}

impl Clone for RunOutput {
    fn clone(&self) -> (r: Self)
        ensures
            r@ == self@,
    {
        RunOutput {
            text: self.text.clone(),
            usage: self.usage,
        }
    }
}

/// Canonical error safe for policy, telemetry, and persistence.
#[derive(Debug, PartialEq, Eq)]
pub enum CanonicalError {
    /// Referenced entity was absent or stale.
    StaleEntity(String),
    /// Tenant scopes were not authorized to interact.
    TenantMismatch,
    /// Capability is retired.
    RetiredCapability,
    /// Effect queue was disconnected.
    ExecutorDisconnected,
    /// An external effect exceeded its runtime-owned deadline.
    Timeout,
    /// The executor caught a panic while running an effect task.
    ExecutorPanicked(String),
    /// A typed provider returned content the canonical runtime cannot represent.
    UnsupportedModelContent(String),
    /// A model's terminal text did not satisfy the accepted output requirement.
    InvalidStructuredOutput(String),
    /// A run exhausted the model-call budget accepted from its agent.
    ModelCallBudget {
        /// Maximum accepted model operations.
        limit: u32,
    },
    /// External provider failure.
    Provider {
        /// Operator-facing diagnostic; model-visible presentation is separate.
        message: String,
        /// Whether policy may retry the failure.
        retryable: bool,
    },
    /// Typed tool execution failed outside the world.
    Tool {
        /// Operator-facing diagnostic.
        message: String,
        /// Whether policy may retry the failure.
        retryable: bool,
    },
    /// Typed store execution failed outside the world.
    Store {
        /// Operator-facing diagnostic.
        message: String,
        /// Whether policy may retry the failure.
        retryable: bool,
    },
    /// Typed discovery refresh failed outside the world.
    Discovery {
        /// Operator-facing diagnostic.
        message: String,
        /// Whether policy may retry the failure.
        retryable: bool,
    },
    /// Ordered policy denied dispatch.
    PolicyDenied {
        /// Persistent policy identity.
        policy: String,
    },
    /// Model requested a tool that was not in its immutable snapshot.
    UnknownTool(String),
    /// Tool-call identifiers must be unique within a logical batch.
    DuplicateToolCall(String),
    /// Completion payload did not match its authoritative operation kind.
    EffectKindMismatch,
    /// Discovery payload violated source reconciliation invariants.
    InvalidDiscovery(String),
}

/// What a [`CanonicalError`] holds.
#[verifier::ext_equal]
pub enum CanonicalErrorView {
    StaleEntity(Seq<char>),
    TenantMismatch,
    RetiredCapability,
    ExecutorDisconnected,
    Timeout,
    ExecutorPanicked(Seq<char>),
    UnsupportedModelContent(Seq<char>),
    InvalidStructuredOutput(Seq<char>),
    ModelCallBudget { limit: u32 },
    Provider { message: Seq<char>, retryable: bool },
    Tool { message: Seq<char>, retryable: bool },
    Store { message: Seq<char>, retryable: bool },
    Discovery { message: Seq<char>, retryable: bool },
    PolicyDenied { policy: Seq<char> },
    UnknownTool(Seq<char>),
    DuplicateToolCall(Seq<char>),
    EffectKindMismatch,
    InvalidDiscovery(Seq<char>),
}

impl View for CanonicalError {
    type V = CanonicalErrorView;

    open spec fn view(&self) -> CanonicalErrorView {
        match self {
            CanonicalError::StaleEntity(x) => CanonicalErrorView::StaleEntity(x@),
            CanonicalError::TenantMismatch => CanonicalErrorView::TenantMismatch,
            CanonicalError::RetiredCapability => CanonicalErrorView::RetiredCapability,
            CanonicalError::ExecutorDisconnected => CanonicalErrorView::ExecutorDisconnected,
            CanonicalError::Timeout => CanonicalErrorView::Timeout,
            CanonicalError::ExecutorPanicked(x) => CanonicalErrorView::ExecutorPanicked(x@),
            CanonicalError::UnsupportedModelContent(x) => CanonicalErrorView::UnsupportedModelContent(x@),
            CanonicalError::InvalidStructuredOutput(x) => CanonicalErrorView::InvalidStructuredOutput(x@),
            CanonicalError::ModelCallBudget { limit } => CanonicalErrorView::ModelCallBudget {
                limit: *limit,
            },
            CanonicalError::Provider { message, retryable } => CanonicalErrorView::Provider {
                message: message@,
                retryable: *retryable,
            },
            CanonicalError::Tool { message, retryable } => CanonicalErrorView::Tool {
                message: message@,
                retryable: *retryable,
            },
            CanonicalError::Store { message, retryable } => CanonicalErrorView::Store {
                message: message@,
                retryable: *retryable,
            },
            CanonicalError::Discovery { message, retryable } => CanonicalErrorView::Discovery {
                message: message@,
                retryable: *retryable,
            },
            CanonicalError::PolicyDenied { policy } => CanonicalErrorView::PolicyDenied {
                policy: policy@,
            },
            CanonicalError::UnknownTool(x) => CanonicalErrorView::UnknownTool(x@),
            CanonicalError::DuplicateToolCall(x) => CanonicalErrorView::DuplicateToolCall(x@),
            CanonicalError::EffectKindMismatch => CanonicalErrorView::EffectKindMismatch,
            CanonicalError::InvalidDiscovery(x) => CanonicalErrorView::InvalidDiscovery(x@),
        }
    }
}

impl DeepView for CanonicalError {
    type V = CanonicalErrorView;

    open spec fn deep_view(&self) -> CanonicalErrorView {
        self.view()
    }
}

impl Clone for CanonicalError {
    fn clone(&self) -> (r: Self)
        ensures
            r@ == self@,
    {
        match self {
            CanonicalError::StaleEntity(x) => CanonicalError::StaleEntity(x.clone()),
            CanonicalError::TenantMismatch => CanonicalError::TenantMismatch,
            CanonicalError::RetiredCapability => CanonicalError::RetiredCapability,
            CanonicalError::ExecutorDisconnected => CanonicalError::ExecutorDisconnected,
            CanonicalError::Timeout => CanonicalError::Timeout,
            CanonicalError::ExecutorPanicked(x) => CanonicalError::ExecutorPanicked(x.clone()),
            CanonicalError::UnsupportedModelContent(x) => CanonicalError::UnsupportedModelContent(x.clone()),
            CanonicalError::InvalidStructuredOutput(x) => CanonicalError::InvalidStructuredOutput(x.clone()),
            CanonicalError::ModelCallBudget { limit } => CanonicalError::ModelCallBudget {
                limit: *limit,
            },
            CanonicalError::Provider { message, retryable } => CanonicalError::Provider {
                message: message.clone(),
                retryable: *retryable,
            },
            CanonicalError::Tool { message, retryable } => CanonicalError::Tool {
                message: message.clone(),
                retryable: *retryable,
            },
            CanonicalError::Store { message, retryable } => CanonicalError::Store {
                message: message.clone(),
                retryable: *retryable,
            },
            CanonicalError::Discovery { message, retryable } => CanonicalError::Discovery {
                message: message.clone(),
                retryable: *retryable,
            },
            CanonicalError::PolicyDenied { policy } => CanonicalError::PolicyDenied {
                policy: policy.clone(),
            },
            CanonicalError::UnknownTool(x) => CanonicalError::UnknownTool(x.clone()),
            CanonicalError::DuplicateToolCall(x) => CanonicalError::DuplicateToolCall(x.clone()),
            CanonicalError::EffectKindMismatch => CanonicalError::EffectKindMismatch,
            CanonicalError::InvalidDiscovery(x) => CanonicalError::InvalidDiscovery(x.clone()),
        }
    }
}

/// Immutable decision accepted before model dispatch.
#[derive(Debug, PartialEq, Eq)]
pub struct ModelDecision {
    /// Entity identity is retained for in-memory correlation.
    pub model_entity: Entity,
    /// Stable identity is retained for audit and persistence.
    pub model_id: StableId,
    /// Exact capability revision used by the effect.
    pub revision: u64,
    /// Owned provider identifier.
    pub provider: String,
    /// Owned provider model identifier.
    pub model: String,
    /// Tenant scope accepted by preparation.
    pub tenant: TenantId,
}

/// What a [`ModelDecision`] holds.
#[verifier::ext_equal]
pub struct ModelDecisionView {
    pub model_entity: Entity,
    pub model_id: Seq<char>,
    pub revision: u64,
    pub provider: Seq<char>,
    pub model: Seq<char>,
    pub tenant: Seq<char>,
}

impl View for ModelDecision {
    type V = ModelDecisionView;

    open spec fn view(&self) -> ModelDecisionView {
        ModelDecisionView {
            model_entity: self.model_entity,
            model_id: self.model_id@,
            revision: self.revision,
            provider: self.provider@,
            model: self.model@,
            tenant: self.tenant@,
        }
    }
}

impl DeepView for ModelDecision {
    type V = ModelDecisionView;

    open spec fn deep_view(&self) -> ModelDecisionView {
        self.view()
    }
}

impl Clone for ModelDecision {
    fn clone(&self) -> (r: Self)
        ensures
            r@ == self@,
    {
        ModelDecision {
            model_entity: self.model_entity,
            model_id: self.model_id.clone(),
            revision: self.revision,
            provider: self.provider.clone(),
            model: self.model.clone(),
            tenant: self.tenant.clone(),
        }
    }
}

/// Exact tool capability advertised and retained for one model operation.
#[derive(Debug, PartialEq, Eq)]
pub struct ToolDecision {
    /// In-memory capability identity.
    pub tool_entity: Entity,
    /// Stable capability identity.
    pub tool_id: StableId,
    /// Exact executable revision.
    pub revision: u64,
    /// Provider-facing name.
    pub name: String,
    /// Provider-facing description.
    pub description: String,
    /// Exact argument schema advertised for this accepted revision.
    pub parameters: serde_json::Value,
    /// Explicit provider-facing position.
    pub order: u32,
}

/// What a [`ToolDecision`] holds.
#[verifier::ext_equal]
pub struct ToolDecisionView {
    pub tool_entity: Entity,
    pub tool_id: Seq<char>,
    pub revision: u64,
    pub name: Seq<char>,
    pub description: Seq<char>,
    pub parameters: serde_json::Value,
    pub order: u32,
}

impl View for ToolDecision {
    type V = ToolDecisionView;

    open spec fn view(&self) -> ToolDecisionView {
        ToolDecisionView {
            tool_entity: self.tool_entity,
            tool_id: self.tool_id@,
            revision: self.revision,
            name: self.name@,
            description: self.description@,
            parameters: self.parameters,
            order: self.order,
        }
    }
}

impl DeepView for ToolDecision {
    type V = ToolDecisionView;

    open spec fn deep_view(&self) -> ToolDecisionView {
        self.view()
    }
}

impl Clone for ToolDecision {
    fn clone(&self) -> (r: Self)
        ensures
            r@ == self@,
    {
        ToolDecision {
            tool_entity: self.tool_entity,
            tool_id: self.tool_id.clone(),
            revision: self.revision,
            name: self.name.clone(),
            description: self.description.clone(),
            parameters: self.parameters.clone(),
            order: self.order,
        }
    }
}

/// Exact store capability accepted for a run.
#[derive(Debug, PartialEq, Eq)]
pub struct StoreDecision {
    /// In-memory store identity.
    pub store_entity: Entity,
    /// Persistent store identity.
    pub store_id: StableId,
    /// Exact capability revision.
    pub revision: u64,
    /// Narrow capability kind.
    pub kind: String,
    /// Accepted tenant scope.
    pub tenant: TenantId,
}

/// What a [`StoreDecision`] holds.
#[verifier::ext_equal]
pub struct StoreDecisionView {
    pub store_entity: Entity,
    pub store_id: Seq<char>,
    pub revision: u64,
    pub kind: Seq<char>,
    pub tenant: Seq<char>,
}

impl View for StoreDecision {
    type V = StoreDecisionView;

    open spec fn view(&self) -> StoreDecisionView {
        StoreDecisionView {
            store_entity: self.store_entity,
            store_id: self.store_id@,
            revision: self.revision,
            kind: self.kind@,
            tenant: self.tenant@,
        }
    }
}

impl DeepView for StoreDecision {
    type V = StoreDecisionView;

    open spec fn deep_view(&self) -> StoreDecisionView {
        self.view()
    }
}

impl Clone for StoreDecision {
    fn clone(&self) -> (r: Self)
        ensures
            r@ == self@,
    {
        StoreDecision {
            store_entity: self.store_entity,
            store_id: self.store_id.clone(),
            revision: self.revision,
            kind: self.kind.clone(),
            tenant: self.tenant.clone(),
        }
    }
}

/// Canonical transcript entry.
#[derive(Debug, PartialEq, Eq)]
pub enum TranscriptEntry {
    /// Original user input.
    User(String),
    /// A multimodal user message retained without flattening provider content.
    UserMessage(serde_json::Value),
    /// A canonical message supplied as pre-existing run history.
    Message(serde_json::Value),
    /// Committed model output.
    Assistant(String),
    /// Complete canonical assistant message when provider-significant parts
    /// such as reasoning signatures must survive a tool round trip.
    AssistantMessage(serde_json::Value),
    /// Exact provider tool call advertised before its result.
    AssistantToolCall {
        /// Provider correlation identifier.
        call_id: String,
        /// Provider-facing tool name.
        name: String,
        /// Structured arguments emitted by the model.
        arguments: serde_json::Value,
    },
    /// Atomically committed model-visible tool result.
    ToolResult {
        /// Provider correlation identifier.
        call_id: String,
        /// Provider-facing result identifier before runtime normalization.
        provider_result_id: String,
        /// Provider-specific call ID, when represented separately.
        provider_call_id: Option<String>,
        /// Provider-facing tool name.
        name: String,
        /// Canonical structured content retained for provider round trips.
        raw: serde_json::Value,
        /// Presentation returned to the next model call.
        content: String,
    },
}

/// What a [`TranscriptEntry`] holds.
#[verifier::ext_equal]
pub enum TranscriptEntryView {
    User(Seq<char>),
    UserMessage(serde_json::Value),
    Message(serde_json::Value),
    Assistant(Seq<char>),
    AssistantMessage(serde_json::Value),
    AssistantToolCall { call_id: Seq<char>, name: Seq<char>, arguments: serde_json::Value },
    ToolResult { call_id: Seq<char>, provider_result_id: Seq<char>, provider_call_id: Option<Seq<char>>, name: Seq<char>, raw: serde_json::Value, content: Seq<char> },
}

impl View for TranscriptEntry {
    type V = TranscriptEntryView;

    open spec fn view(&self) -> TranscriptEntryView {
        match self {
            TranscriptEntry::User(x) => TranscriptEntryView::User(x@),
            TranscriptEntry::UserMessage(x) => TranscriptEntryView::UserMessage(*x),
            TranscriptEntry::Message(x) => TranscriptEntryView::Message(*x),
            TranscriptEntry::Assistant(x) => TranscriptEntryView::Assistant(x@),
            TranscriptEntry::AssistantMessage(x) => TranscriptEntryView::AssistantMessage(*x),
            TranscriptEntry::AssistantToolCall { call_id, name, arguments } => TranscriptEntryView::AssistantToolCall {
                call_id: call_id@,
                name: name@,
                arguments: *arguments,
            },
            TranscriptEntry::ToolResult { call_id, provider_result_id, provider_call_id, name, raw, content } => TranscriptEntryView::ToolResult {
                call_id: call_id@,
                provider_result_id: provider_result_id@,
                provider_call_id: provider_call_id.deep_view(),
                name: name@,
                raw: *raw,
                content: content@,
            },
        }
    }
}

impl DeepView for TranscriptEntry {
    type V = TranscriptEntryView;

    open spec fn deep_view(&self) -> TranscriptEntryView {
        self.view()
    }
}

impl Clone for TranscriptEntry {
    fn clone(&self) -> (r: Self)
        ensures
            r@ == self@,
    {
        let r = match self {
            TranscriptEntry::User(x) => TranscriptEntry::User(x.clone()),
            TranscriptEntry::UserMessage(x) => TranscriptEntry::UserMessage(x.clone()),
            TranscriptEntry::Message(x) => TranscriptEntry::Message(x.clone()),
            TranscriptEntry::Assistant(x) => TranscriptEntry::Assistant(x.clone()),
            TranscriptEntry::AssistantMessage(x) => TranscriptEntry::AssistantMessage(x.clone()),
            TranscriptEntry::AssistantToolCall { call_id, name, arguments } => TranscriptEntry::AssistantToolCall {
                call_id: call_id.clone(),
                name: name.clone(),
                arguments: arguments.clone(),
            },
            TranscriptEntry::ToolResult { call_id, provider_result_id, provider_call_id, name, raw, content } => TranscriptEntry::ToolResult {
                call_id: call_id.clone(),
                provider_result_id: provider_result_id.clone(),
                provider_call_id: provider_call_id.clone(),
                name: name.clone(),
                raw: raw.clone(),
                content: content.clone(),
            },
        };
        assert(r@ =~~= self@);
        r
    }
}

/// Provider-independent requested tool call.
#[derive(Debug, PartialEq, Eq)]
pub struct ModelToolCall {
    /// Provider correlation identifier.
    pub id: String,
    /// Provider-facing tool-result identifier before runtime normalization.
    pub provider_result_id: String,
    /// Provider-specific call ID, when the API represents it separately.
    pub provider_call_id: Option<String>,
    /// Advertised provider-facing name.
    pub name: String,
    /// Structured provider arguments.
    pub arguments: serde_json::Value,
}

/// What a [`ModelToolCall`] holds.
#[verifier::ext_equal]
pub struct ModelToolCallView {
    pub id: Seq<char>,
    pub provider_result_id: Seq<char>,
    pub provider_call_id: Option<Seq<char>>,
    pub name: Seq<char>,
    pub arguments: serde_json::Value,
}

impl View for ModelToolCall {
    type V = ModelToolCallView;

    open spec fn view(&self) -> ModelToolCallView {
        ModelToolCallView {
            id: self.id@,
            provider_result_id: self.provider_result_id@,
            provider_call_id: self.provider_call_id.deep_view(),
            name: self.name@,
            arguments: self.arguments,
        }
    }
}

impl DeepView for ModelToolCall {
    type V = ModelToolCallView;

    open spec fn deep_view(&self) -> ModelToolCallView {
        self.view()
    }
}

impl Clone for ModelToolCall {
    fn clone(&self) -> (r: Self)
        ensures
            r@ == self@,
    {
        let r = ModelToolCall {
            id: self.id.clone(),
            provider_result_id: self.provider_result_id.clone(),
            provider_call_id: self.provider_call_id.clone(),
            name: self.name.clone(),
            arguments: self.arguments.clone(),
        };
        assert(r.provider_call_id.deep_view() =~= self.provider_call_id.deep_view());
        r
    }
}

/// Provider-independent model output.
#[derive(Debug, PartialEq, Eq)]
pub struct ModelEffectOutput {
    /// Complete canonical assistant message, including provider-significant
    /// reasoning and correlation data when available.
    pub assistant_message: Option<serde_json::Value>,
    /// Model-visible text.
    pub text: String,
    /// Usage finalized with the call.
    pub usage: Usage,
    /// Ordered tool calls requested by this model operation.
    pub tool_calls: Vec<ModelToolCall>,
}

/// What a [`ModelEffectOutput`] holds.
#[verifier::ext_equal]
pub struct ModelEffectOutputView {
    pub assistant_message: Option<serde_json::Value>,
    pub text: Seq<char>,
    pub usage: Usage,
    pub tool_calls: Seq<ModelToolCallView>,
}

impl View for ModelEffectOutput {
    type V = ModelEffectOutputView;

    open spec fn view(&self) -> ModelEffectOutputView {
        ModelEffectOutputView {
            assistant_message: self.assistant_message,
            text: self.text@,
            usage: self.usage,
            tool_calls: self.tool_calls.deep_view(),
        }
    }
}

impl DeepView for ModelEffectOutput {
    type V = ModelEffectOutputView;

    open spec fn deep_view(&self) -> ModelEffectOutputView {
        self.view()
    }
}

impl Clone for ModelEffectOutput {
    fn clone(&self) -> (r: Self)
        ensures
            r@ == self@,
    {
        let r = ModelEffectOutput {
            assistant_message: self.assistant_message.clone(),
            text: self.text.clone(),
            usage: self.usage,
            tool_calls: self.tool_calls.clone(),
        };
        assert(r.tool_calls.deep_view() =~= self.tool_calls.deep_view());
        r
    }
}

/// Stable classification of a tool failure.
#[derive(Clone, Copy, Debug, PartialEq, Eq, Structural)]
pub enum ToolErrorKind {
    /// The arguments did not have the shape that the tool takes.
    InvalidArguments,
    /// Any other failure.
    Other,
}

impl View for ToolErrorKind {
    type V = Self;

    open spec fn view(&self) -> Self {
        *self
    }
}

impl DeepView for ToolErrorKind {
    type V = Self;

    open spec fn deep_view(&self) -> Self {
        self.view()
    }
}

/// Canonical tool failure metadata retained for policy, telemetry, and audit.
#[derive(Debug, PartialEq, Eq)]
pub struct ToolEffectFailure {
    /// Operator-facing diagnostic, which is never copied into the transcript.
    pub message: String,
    /// Whether a retry policy may repeat the operation.
    pub retryable: Option<bool>,
    /// Stable normalized failure classification.
    pub kind: ToolErrorKind,
    /// Whether the tool intentionally refused the request.
    pub refusal: bool,
}

/// What a [`ToolEffectFailure`] holds.
#[verifier::ext_equal]
pub struct ToolEffectFailureView {
    pub message: Seq<char>,
    pub retryable: Option<bool>,
    pub kind: ToolErrorKind,
    pub refusal: bool,
}

impl View for ToolEffectFailure {
    type V = ToolEffectFailureView;

    open spec fn view(&self) -> ToolEffectFailureView {
        ToolEffectFailureView {
            message: self.message@,
            retryable: self.retryable,
            kind: self.kind,
            refusal: self.refusal,
        }
    }
}

impl DeepView for ToolEffectFailure {
    type V = ToolEffectFailureView;

    open spec fn deep_view(&self) -> ToolEffectFailureView {
        self.view()
    }
}

impl Clone for ToolEffectFailure {
    fn clone(&self) -> (r: Self)
        ensures
            r@ == self@,
    {
        ToolEffectFailure {
            message: self.message.clone(),
            retryable: self.retryable,
            kind: self.kind,
            refusal: self.refusal,
        }
    }
}

/// Provider-independent tool execution result.
#[derive(Debug, PartialEq, Eq)]
pub struct ToolEffectOutput {
    /// Provider correlation identifier copied from the call.
    pub call_id: String,
    /// Provider-facing tool-result identifier before runtime normalization.
    pub provider_result_id: String,
    /// Provider-specific call ID, when the API represents it separately.
    pub provider_call_id: Option<String>,
    /// Provider-facing tool name.
    pub name: String,
    /// Raw canonical model-visible output retained independently of rendering.
    pub raw: serde_json::Value,
    /// Independently rewritable model-visible presentation.
    pub presentation: String,
    /// Operator and retry metadata kept separate from model-visible content.
    pub failure: Option<ToolEffectFailure>,
}

/// What a [`ToolEffectOutput`] holds.
#[verifier::ext_equal]
pub struct ToolEffectOutputView {
    pub call_id: Seq<char>,
    pub provider_result_id: Seq<char>,
    pub provider_call_id: Option<Seq<char>>,
    pub name: Seq<char>,
    pub raw: serde_json::Value,
    pub presentation: Seq<char>,
    pub failure: Option<ToolEffectFailureView>,
}

impl View for ToolEffectOutput {
    type V = ToolEffectOutputView;

    open spec fn view(&self) -> ToolEffectOutputView {
        ToolEffectOutputView {
            call_id: self.call_id@,
            provider_result_id: self.provider_result_id@,
            provider_call_id: self.provider_call_id.deep_view(),
            name: self.name@,
            raw: self.raw,
            presentation: self.presentation@,
            failure: self.failure.deep_view(),
        }
    }
}

impl DeepView for ToolEffectOutput {
    type V = ToolEffectOutputView;

    open spec fn deep_view(&self) -> ToolEffectOutputView {
        self.view()
    }
}

impl Clone for ToolEffectOutput {
    fn clone(&self) -> (r: Self)
        ensures
            r@ == self@,
    {
        let r = ToolEffectOutput {
            call_id: self.call_id.clone(),
            provider_result_id: self.provider_result_id.clone(),
            provider_call_id: self.provider_call_id.clone(),
            name: self.name.clone(),
            raw: self.raw.clone(),
            presentation: self.presentation.clone(),
            failure: self.failure.clone(),
        };
        assert(r.provider_call_id.deep_view() =~= self.provider_call_id.deep_view());
        assert(r.failure.deep_view() =~= self.failure.deep_view());
        r
    }
}

/// Provider-independent discovered tool definition.
#[derive(Debug, PartialEq, Eq)]
pub struct DiscoveredTool {
    /// Stable key within the discovery source.
    pub key: String,
    /// Provider-facing name.
    pub name: String,
    /// Provider-facing description.
    pub description: String,
    /// JSON Schema advertised for tool arguments.
    pub parameters: serde_json::Value,
    /// Explicit source-defined order.
    pub order: u32,
    /// External executable revision.
    pub revision: u64,
}

/// What a [`DiscoveredTool`] holds.
#[verifier::ext_equal]
pub struct DiscoveredToolView {
    pub key: Seq<char>,
    pub name: Seq<char>,
    pub description: Seq<char>,
    pub parameters: serde_json::Value,
    pub order: u32,
    pub revision: u64,
}

impl View for DiscoveredTool {
    type V = DiscoveredToolView;

    open spec fn view(&self) -> DiscoveredToolView {
        DiscoveredToolView {
            key: self.key@,
            name: self.name@,
            description: self.description@,
            parameters: self.parameters,
            order: self.order,
            revision: self.revision,
        }
    }
}

impl DeepView for DiscoveredTool {
    type V = DiscoveredToolView;

    open spec fn deep_view(&self) -> DiscoveredToolView {
        self.view()
    }
}

impl Clone for DiscoveredTool {
    fn clone(&self) -> (r: Self)
        ensures
            r@ == self@,
    {
        DiscoveredTool {
            key: self.key.clone(),
            name: self.name.clone(),
            description: self.description.clone(),
            parameters: self.parameters.clone(),
            order: self.order,
            revision: self.revision,
        }
    }
}

/// Owned discovery result for one source generation.
#[derive(Debug, PartialEq, Eq)]
pub struct DiscoveryEffectOutput {
    /// Complete capability set observed for this generation.
    pub tools: Vec<DiscoveredTool>,
}

/// What a [`DiscoveryEffectOutput`] holds.
#[verifier::ext_equal]
pub struct DiscoveryEffectOutputView {
    pub tools: Seq<DiscoveredToolView>,
}

impl View for DiscoveryEffectOutput {
    type V = DiscoveryEffectOutputView;

    open spec fn view(&self) -> DiscoveryEffectOutputView {
        DiscoveryEffectOutputView {
            tools: self.tools.deep_view(),
        }
    }
}

impl DeepView for DiscoveryEffectOutput {
    type V = DiscoveryEffectOutputView;

    open spec fn deep_view(&self) -> DiscoveryEffectOutputView {
        self.view()
    }
}

impl Clone for DiscoveryEffectOutput {
    fn clone(&self) -> (r: Self)
        ensures
            r@ == self@,
    {
        let r = DiscoveryEffectOutput {
            tools: self.tools.clone(),
        };
        assert(r.tools.deep_view() =~= self.tools.deep_view());
        r
    }
}

/// Provider-independent store result.
#[derive(Debug, PartialEq, Eq)]
pub enum StoreEffectOutput {
    /// Loaded committed conversation history.
    LoadedConversation(Vec<TranscriptEntry>),
    /// Required transcript persistence completed.
    Persisted,
    /// Ordered retrieval results.
    Retrieved(Vec<RetrievedDocument>),
}

/// What a [`StoreEffectOutput`] holds.
#[verifier::ext_equal]
pub enum StoreEffectOutputView {
    LoadedConversation(Seq<TranscriptEntryView>),
    Persisted,
    Retrieved(Seq<RetrievedDocumentView>),
}

impl View for StoreEffectOutput {
    type V = StoreEffectOutputView;

    open spec fn view(&self) -> StoreEffectOutputView {
        match self {
            StoreEffectOutput::LoadedConversation(x) => StoreEffectOutputView::LoadedConversation(x.deep_view()),
            StoreEffectOutput::Persisted => StoreEffectOutputView::Persisted,
            StoreEffectOutput::Retrieved(x) => StoreEffectOutputView::Retrieved(x.deep_view()),
        }
    }
}

impl DeepView for StoreEffectOutput {
    type V = StoreEffectOutputView;

    open spec fn deep_view(&self) -> StoreEffectOutputView {
        self.view()
    }
}

impl Clone for StoreEffectOutput {
    fn clone(&self) -> (r: Self)
        ensures
            r@ == self@,
    {
        let r = match self {
            StoreEffectOutput::LoadedConversation(x) => StoreEffectOutput::LoadedConversation(x.clone()),
            StoreEffectOutput::Persisted => StoreEffectOutput::Persisted,
            StoreEffectOutput::Retrieved(x) => StoreEffectOutput::Retrieved(x.clone()),
        };
        assert(r@ =~~= self@);
        r
    }
}

/// Typed provider-independent effect result.
#[derive(Debug, PartialEq, Eq)]
pub enum EffectOutput {
    /// Model operation result.
    Model(ModelEffectOutput),
    /// Tool operation result.
    Tool(ToolEffectOutput),
    /// Reconciled discovery payload.
    Discovery(DiscoveryEffectOutput),
    /// Store operation result.
    Store(StoreEffectOutput),
}

/// What a [`EffectOutput`] holds.
#[verifier::ext_equal]
pub enum EffectOutputView {
    Model(ModelEffectOutputView),
    Tool(ToolEffectOutputView),
    Discovery(DiscoveryEffectOutputView),
    Store(StoreEffectOutputView),
}

impl View for EffectOutput {
    type V = EffectOutputView;

    open spec fn view(&self) -> EffectOutputView {
        match self {
            EffectOutput::Model(x) => EffectOutputView::Model(x@),
            EffectOutput::Tool(x) => EffectOutputView::Tool(x@),
            EffectOutput::Discovery(x) => EffectOutputView::Discovery(x@),
            EffectOutput::Store(x) => EffectOutputView::Store(x@),
        }
    }
}

impl DeepView for EffectOutput {
    type V = EffectOutputView;

    open spec fn deep_view(&self) -> EffectOutputView {
        self.view()
    }
}

impl Clone for EffectOutput {
    fn clone(&self) -> (r: Self)
        ensures
            r@ == self@,
    {
        match self {
            EffectOutput::Model(x) => EffectOutput::Model(x.clone()),
            EffectOutput::Tool(x) => EffectOutput::Tool(x.clone()),
            EffectOutput::Discovery(x) => EffectOutput::Discovery(x.clone()),
            EffectOutput::Store(x) => EffectOutput::Store(x.clone()),
        }
    }
}

/// Provider-independent conversation store operation.
#[derive(Debug, PartialEq, Eq)]
pub enum StoreOperation {
    /// Load committed history before model preparation.
    LoadConversation {
        /// Stable conversation identity.
        conversation: StableId,
    },
    /// Persist the complete committed transcript before terminal success.
    PersistConversation {
        /// Stable conversation identity.
        conversation: StableId,
        /// Canonical transcript snapshot.
        entries: Vec<TranscriptEntry>,
    },
    /// Retrieve ordered context documents for a prompt.
    Retrieve {
        /// Owned semantic query.
        query: String,
        /// Maximum result count.
        limit: usize,
    },
}

/// What a [`StoreOperation`] holds.
#[verifier::ext_equal]
pub enum StoreOperationView {
    LoadConversation { conversation: Seq<char> },
    PersistConversation { conversation: Seq<char>, entries: Seq<TranscriptEntryView> },
    Retrieve { query: Seq<char>, limit: usize },
}

impl View for StoreOperation {
    type V = StoreOperationView;

    open spec fn view(&self) -> StoreOperationView {
        match self {
            StoreOperation::LoadConversation { conversation } => StoreOperationView::LoadConversation {
                conversation: conversation@,
            },
            StoreOperation::PersistConversation { conversation, entries } => StoreOperationView::PersistConversation {
                conversation: conversation@,
                entries: entries.deep_view(),
            },
            StoreOperation::Retrieve { query, limit } => StoreOperationView::Retrieve {
                query: query@,
                limit: *limit,
            },
        }
    }
}

impl DeepView for StoreOperation {
    type V = StoreOperationView;

    open spec fn deep_view(&self) -> StoreOperationView {
        self.view()
    }
}

impl Clone for StoreOperation {
    fn clone(&self) -> (r: Self)
        ensures
            r@ == self@,
    {
        let r = match self {
            StoreOperation::LoadConversation { conversation } => StoreOperation::LoadConversation {
                conversation: conversation.clone(),
            },
            StoreOperation::PersistConversation { conversation, entries } => StoreOperation::PersistConversation {
                conversation: conversation.clone(),
                entries: entries.clone(),
            },
            StoreOperation::Retrieve { query, limit } => StoreOperation::Retrieve {
                query: query.clone(),
                limit: *limit,
            },
        };
        assert(r@ =~~= self@);
        r
    }
}

/// Fully owned model effect input.
#[derive(Debug, PartialEq, Eq)]
pub struct ModelEffectInput {
    /// Accepted immutable model decision.
    pub decision: ModelDecision,
    /// Instructions accepted for this turn.
    pub instructions: String,
    /// Canonical serialized user message.
    pub prompt: serde_json::Value,
    /// First textual part of that message, where there is one.
    pub prompt_text: Option<String>,
    /// Canonical committed history prepared for this model call.
    pub history: Vec<TranscriptEntry>,
    /// Deterministically ordered exact tool snapshot.
    pub tools: Vec<ToolDecision>,
    /// Ordered results from the preceding logical tool batch.
    pub tool_results: Vec<ToolEffectOutput>,
    /// Structured-output schema accepted for this operation, if configured.
    pub output_schema: Option<serde_json::Value>,
    /// Tool whose arguments are accepted as terminal structured output.
    pub terminal_tool: Option<String>,
    /// Ordered retrieval context accepted before model dispatch.
    pub documents: Vec<RetrievedDocument>,
    /// Sampling temperature accepted for this operation.
    pub temperature_bits: Option<u64>,
    /// Provider output-token limit accepted for this operation.
    pub max_tokens: Option<u64>,
    /// Tool-selection behavior accepted for this operation.
    pub tool_choice: Option<ModelToolChoice>,
    /// Provider-specific parameters accepted for this operation.
    pub additional_params: Option<serde_json::Value>,
}

/// What a [`ModelEffectInput`] holds.
#[verifier::ext_equal]
pub struct ModelEffectInputView {
    pub decision: ModelDecisionView,
    pub instructions: Seq<char>,
    pub prompt: serde_json::Value,
    pub prompt_text: Option<Seq<char>>,
    pub history: Seq<TranscriptEntryView>,
    pub tools: Seq<ToolDecisionView>,
    pub tool_results: Seq<ToolEffectOutputView>,
    pub output_schema: Option<serde_json::Value>,
    pub terminal_tool: Option<Seq<char>>,
    pub documents: Seq<RetrievedDocumentView>,
    pub temperature_bits: Option<u64>,
    pub max_tokens: Option<u64>,
    pub tool_choice: Option<ModelToolChoiceView>,
    pub additional_params: Option<serde_json::Value>,
}

impl View for ModelEffectInput {
    type V = ModelEffectInputView;

    open spec fn view(&self) -> ModelEffectInputView {
        ModelEffectInputView {
            decision: self.decision@,
            instructions: self.instructions@,
            prompt: self.prompt,
            prompt_text: self.prompt_text.deep_view(),
            history: self.history.deep_view(),
            tools: self.tools.deep_view(),
            tool_results: self.tool_results.deep_view(),
            output_schema: self.output_schema,
            terminal_tool: self.terminal_tool.deep_view(),
            documents: self.documents.deep_view(),
            temperature_bits: self.temperature_bits,
            max_tokens: self.max_tokens,
            tool_choice: self.tool_choice.deep_view(),
            additional_params: self.additional_params,
        }
    }
}

impl DeepView for ModelEffectInput {
    type V = ModelEffectInputView;

    open spec fn deep_view(&self) -> ModelEffectInputView {
        self.view()
    }
}

impl Clone for ModelEffectInput {
    fn clone(&self) -> (r: Self)
        ensures
            r@ == self@,
    {
        let r = ModelEffectInput {
            decision: self.decision.clone(),
            instructions: self.instructions.clone(),
            prompt: self.prompt.clone(),
            prompt_text: self.prompt_text.clone(),
            history: self.history.clone(),
            tools: self.tools.clone(),
            tool_results: self.tool_results.clone(),
            output_schema: self.output_schema.clone(),
            terminal_tool: self.terminal_tool.clone(),
            documents: self.documents.clone(),
            temperature_bits: self.temperature_bits,
            max_tokens: self.max_tokens,
            tool_choice: self.tool_choice.clone(),
            additional_params: self.additional_params.clone(),
        };
        assert(r.prompt_text.deep_view() =~= self.prompt_text.deep_view());
        assert(r.history.deep_view() =~= self.history.deep_view());
        assert(r.tools.deep_view() =~= self.tools.deep_view());
        assert(r.tool_results.deep_view() =~= self.tool_results.deep_view());
        assert(r.terminal_tool.deep_view() =~= self.terminal_tool.deep_view());
        assert(r.documents.deep_view() =~= self.documents.deep_view());
        assert(r.tool_choice.deep_view() =~= self.tool_choice.deep_view());
        r
    }
}

/// Fully owned tool execution input assembled from an immutable decision.
#[derive(Debug, PartialEq, Eq)]
pub struct ToolEffectInput {
    /// Exact capability accepted before the model call.
    pub decision: ToolDecision,
    /// Provider tool-call correlation identifier.
    pub call_id: String,
    /// Provider-facing tool-result identifier before runtime normalization.
    pub provider_result_id: String,
    /// Provider-specific call ID, when the API represents it separately.
    pub provider_call_id: Option<String>,
    /// Provider-supplied arguments.
    pub arguments: serde_json::Value,
    /// Explicit position in the model call's logical batch.
    pub index: u32,
}

/// What a [`ToolEffectInput`] holds.
#[verifier::ext_equal]
pub struct ToolEffectInputView {
    pub decision: ToolDecisionView,
    pub call_id: Seq<char>,
    pub provider_result_id: Seq<char>,
    pub provider_call_id: Option<Seq<char>>,
    pub arguments: serde_json::Value,
    pub index: u32,
}

impl View for ToolEffectInput {
    type V = ToolEffectInputView;

    open spec fn view(&self) -> ToolEffectInputView {
        ToolEffectInputView {
            decision: self.decision@,
            call_id: self.call_id@,
            provider_result_id: self.provider_result_id@,
            provider_call_id: self.provider_call_id.deep_view(),
            arguments: self.arguments,
            index: self.index,
        }
    }
}

impl DeepView for ToolEffectInput {
    type V = ToolEffectInputView;

    open spec fn deep_view(&self) -> ToolEffectInputView {
        self.view()
    }
}

impl Clone for ToolEffectInput {
    fn clone(&self) -> (r: Self)
        ensures
            r@ == self@,
    {
        let r = ToolEffectInput {
            decision: self.decision.clone(),
            call_id: self.call_id.clone(),
            provider_result_id: self.provider_result_id.clone(),
            provider_call_id: self.provider_call_id.clone(),
            arguments: self.arguments.clone(),
            index: self.index,
        };
        assert(r.provider_call_id.deep_view() =~= self.provider_call_id.deep_view());
        r
    }
}

/// Owned discovery refresh input.
#[derive(Debug, PartialEq, Eq)]
pub struct DiscoveryEffectInput {
    /// Source entity used only for runtime correlation.
    pub source: Entity,
    /// Persistent source identity for the external executor.
    pub source_id: StableId,
    /// Source kind.
    pub kind: String,
    /// Monotonic requested generation.
    pub generation: u64,
    /// Tenant scope accepted for this refresh.
    pub tenant: TenantId,
}

/// What a [`DiscoveryEffectInput`] holds.
#[verifier::ext_equal]
pub struct DiscoveryEffectInputView {
    pub source: Entity,
    pub source_id: Seq<char>,
    pub kind: Seq<char>,
    pub generation: u64,
    pub tenant: Seq<char>,
}

impl View for DiscoveryEffectInput {
    type V = DiscoveryEffectInputView;

    open spec fn view(&self) -> DiscoveryEffectInputView {
        DiscoveryEffectInputView {
            source: self.source,
            source_id: self.source_id@,
            kind: self.kind@,
            generation: self.generation,
            tenant: self.tenant@,
        }
    }
}

impl DeepView for DiscoveryEffectInput {
    type V = DiscoveryEffectInputView;

    open spec fn deep_view(&self) -> DiscoveryEffectInputView {
        self.view()
    }
}

impl Clone for DiscoveryEffectInput {
    fn clone(&self) -> (r: Self)
        ensures
            r@ == self@,
    {
        DiscoveryEffectInput {
            source: self.source,
            source_id: self.source_id.clone(),
            kind: self.kind.clone(),
            generation: self.generation,
            tenant: self.tenant.clone(),
        }
    }
}

/// Fully owned store effect input.
#[derive(Debug, PartialEq, Eq)]
pub struct StoreEffectInput {
    /// Exact store decision accepted for this run.
    pub decision: StoreDecision,
    /// Owned operation payload.
    pub operation: StoreOperation,
}

/// What a [`StoreEffectInput`] holds.
#[verifier::ext_equal]
pub struct StoreEffectInputView {
    pub decision: StoreDecisionView,
    pub operation: StoreOperationView,
}

impl View for StoreEffectInput {
    type V = StoreEffectInputView;

    open spec fn view(&self) -> StoreEffectInputView {
        StoreEffectInputView {
            decision: self.decision@,
            operation: self.operation@,
        }
    }
}

impl DeepView for StoreEffectInput {
    type V = StoreEffectInputView;

    open spec fn deep_view(&self) -> StoreEffectInputView {
        self.view()
    }
}

impl Clone for StoreEffectInput {
    fn clone(&self) -> (r: Self)
        ensures
            r@ == self@,
    {
        StoreEffectInput {
            decision: self.decision.clone(),
            operation: self.operation.clone(),
        }
    }
}

/// Fully owned typed input crossing the effect boundary.
#[derive(Debug, PartialEq, Eq)]
pub enum EffectInput {
    /// Provider model call.
    Model(ModelEffectInput),
    /// Exact snapshotted tool execution.
    Tool(ToolEffectInput),
    /// Dynamic capability discovery refresh.
    Discovery(DiscoveryEffectInput),
    /// Store/memory operation.
    Store(StoreEffectInput),
}

/// What a [`EffectInput`] holds.
#[verifier::ext_equal]
pub enum EffectInputView {
    Model(ModelEffectInputView),
    Tool(ToolEffectInputView),
    Discovery(DiscoveryEffectInputView),
    Store(StoreEffectInputView),
}

impl View for EffectInput {
    type V = EffectInputView;

    open spec fn view(&self) -> EffectInputView {
        match self {
            EffectInput::Model(x) => EffectInputView::Model(x@),
            EffectInput::Tool(x) => EffectInputView::Tool(x@),
            EffectInput::Discovery(x) => EffectInputView::Discovery(x@),
            EffectInput::Store(x) => EffectInputView::Store(x@),
        }
    }
}

impl DeepView for EffectInput {
    type V = EffectInputView;

    open spec fn deep_view(&self) -> EffectInputView {
        self.view()
    }
}

impl Clone for EffectInput {
    fn clone(&self) -> (r: Self)
        ensures
            r@ == self@,
    {
        match self {
            EffectInput::Model(x) => EffectInput::Model(x.clone()),
            EffectInput::Tool(x) => EffectInput::Tool(x.clone()),
            EffectInput::Discovery(x) => EffectInput::Discovery(x.clone()),
            EffectInput::Store(x) => EffectInput::Store(x.clone()),
        }
    }
}

/// Owned request submitted at the asynchronous effect boundary.
#[derive(Debug, PartialEq, Eq)]
pub struct EffectRequest {
    /// Correlates the completion to current ECS state.
    pub operation: Entity,
    /// Rejects stale retries and duplicate generations.
    pub generation: u64,
    /// Fully owned immutable input.
    pub input: EffectInput,
}

/// What a [`EffectRequest`] holds.
#[verifier::ext_equal]
pub struct EffectRequestView {
    pub operation: Entity,
    pub generation: u64,
    pub input: EffectInputView,
}

impl View for EffectRequest {
    type V = EffectRequestView;

    open spec fn view(&self) -> EffectRequestView {
        EffectRequestView {
            operation: self.operation,
            generation: self.generation,
            input: self.input@,
        }
    }
}

impl DeepView for EffectRequest {
    type V = EffectRequestView;

    open spec fn deep_view(&self) -> EffectRequestView {
        self.view()
    }
}

impl Clone for EffectRequest {
    fn clone(&self) -> (r: Self)
        ensures
            r@ == self@,
    {
        EffectRequest {
            operation: self.operation,
            generation: self.generation,
            input: self.input.clone(),
        }
    }
}

/// Correlated request for an executor to cancel in-flight work when supported.
#[derive(Clone, Copy, Debug, PartialEq, Eq, Structural)]
pub struct EffectCancellation {
    /// Operation entity used only for runtime-local correlation.
    pub operation: Entity,
    /// Exact operation generation to cancel.
    pub generation: u64,
}

impl View for EffectCancellation {
    type V = Self;

    open spec fn view(&self) -> Self {
        *self
    }
}

impl DeepView for EffectCancellation {
    type V = Self;

    open spec fn deep_view(&self) -> Self {
        self.view()
    }
}

/// Owned effect completion sent back to the runtime.
#[derive(Debug, PartialEq, Eq)]
pub struct EffectCompletion {
    /// Operation entity copied only for correlation.
    pub operation: Entity,
    /// Operation generation copied at submission.
    pub generation: u64,
    /// Owned completion value.
    pub result: Result<EffectOutput, CanonicalError>,
}

/// What a [`EffectCompletion`] holds.
#[verifier::ext_equal]
pub struct EffectCompletionView {
    pub operation: Entity,
    pub generation: u64,
    pub result: Result<EffectOutputView, CanonicalErrorView>,
}

impl View for EffectCompletion {
    type V = EffectCompletionView;

    open spec fn view(&self) -> EffectCompletionView {
        EffectCompletionView {
            operation: self.operation,
            generation: self.generation,
            result: match self.result { Ok(x) => Ok(x@), Err(x) => Err(x@) },
        }
    }
}

impl DeepView for EffectCompletion {
    type V = EffectCompletionView;

    open spec fn deep_view(&self) -> EffectCompletionView {
        self.view()
    }
}

impl Clone for EffectCompletion {
    fn clone(&self) -> (r: Self)
        ensures
            r@ == self@,
    {
        EffectCompletion {
            operation: self.operation,
            generation: self.generation,
            result: match &self.result { Ok(x) => Ok(x.clone()), Err(x) => Err(x.clone()) },
        }
    }
}

/// Ordered incremental model delta entering through the effect boundary.
#[derive(Debug, PartialEq, Eq)]
pub struct EffectDelta {
    /// Model operation identity.
    pub operation: Entity,
    /// Operation generation copied at submission.
    pub generation: u64,
    /// Monotonic sequence within this model operation.
    pub sequence: u64,
    /// Incremental text value; deltas are not entities.
    pub text: String,
}

/// What a [`EffectDelta`] holds.
#[verifier::ext_equal]
pub struct EffectDeltaView {
    pub operation: Entity,
    pub generation: u64,
    pub sequence: u64,
    pub text: Seq<char>,
}

impl View for EffectDelta {
    type V = EffectDeltaView;

    open spec fn view(&self) -> EffectDeltaView {
        EffectDeltaView {
            operation: self.operation,
            generation: self.generation,
            sequence: self.sequence,
            text: self.text@,
        }
    }
}

impl DeepView for EffectDelta {
    type V = EffectDeltaView;

    open spec fn deep_view(&self) -> EffectDeltaView {
        self.view()
    }
}

impl Clone for EffectDelta {
    fn clone(&self) -> (r: Self)
        ensures
            r@ == self@,
    {
        EffectDelta {
            operation: self.operation,
            generation: self.generation,
            sequence: self.sequence,
            text: self.text.clone(),
        }
    }
}

/// What an executor hands back.
#[derive(Debug, PartialEq, Eq)]
pub enum EffectIngress {
    /// A final result.
    Completion(EffectCompletion),
    /// A partial model text.
    Delta(EffectDelta),
}

/// What a [`EffectIngress`] holds.
#[verifier::ext_equal]
pub enum EffectIngressView {
    Completion(EffectCompletionView),
    Delta(EffectDeltaView),
}

impl View for EffectIngress {
    type V = EffectIngressView;

    open spec fn view(&self) -> EffectIngressView {
        match self {
            EffectIngress::Completion(x) => EffectIngressView::Completion(x@),
            EffectIngress::Delta(x) => EffectIngressView::Delta(x@),
        }
    }
}

impl DeepView for EffectIngress {
    type V = EffectIngressView;

    open spec fn deep_view(&self) -> EffectIngressView {
        self.view()
    }
}

impl Clone for EffectIngress {
    fn clone(&self) -> (r: Self)
        ensures
            r@ == self@,
    {
        match self {
            EffectIngress::Completion(x) => EffectIngress::Completion(x.clone()),
            EffectIngress::Delta(x) => EffectIngress::Delta(x.clone()),
        }
    }
}

/// Canonical terminal operation outcome.
#[derive(Debug, PartialEq, Eq)]
pub enum OperationOutcome {
    /// Successful typed effect output.
    Success(EffectOutput),
    /// Failed external operation.
    Failure(CanonicalError),
}

/// What a [`OperationOutcome`] holds.
#[verifier::ext_equal]
pub enum OperationOutcomeView {
    Success(EffectOutputView),
    Failure(CanonicalErrorView),
}

impl View for OperationOutcome {
    type V = OperationOutcomeView;

    open spec fn view(&self) -> OperationOutcomeView {
        match self {
            OperationOutcome::Success(x) => OperationOutcomeView::Success(x@),
            OperationOutcome::Failure(x) => OperationOutcomeView::Failure(x@),
        }
    }
}

impl DeepView for OperationOutcome {
    type V = OperationOutcomeView;

    open spec fn deep_view(&self) -> OperationOutcomeView {
        self.view()
    }
}

impl Clone for OperationOutcome {
    fn clone(&self) -> (r: Self)
        ensures
            r@ == self@,
    {
        match self {
            OperationOutcome::Success(x) => OperationOutcome::Success(x.clone()),
            OperationOutcome::Failure(x) => OperationOutcome::Failure(x.clone()),
        }
    }
}

/// Mutually exclusive operation state.
#[derive(Debug, PartialEq, Eq)]
pub enum OperationPhase {
    /// Has authoritative correlation state but has not entered the queue.
    Prepared,
    /// Submitted to the external effect boundary.
    InFlight,
    /// Terminal result, written once for this generation.
    Settled(OperationOutcome),
    /// Cancellation prevents a late result from mutating the run.
    Cancelled,
    /// A newer generation replaced this operation.
    Superseded,
    /// The result of an extension effect was committed.
    ExtensionSettled,
}

/// What a [`OperationPhase`] holds.
#[verifier::ext_equal]
pub enum OperationPhaseView {
    Prepared,
    InFlight,
    Settled(OperationOutcomeView),
    Cancelled,
    Superseded,
    ExtensionSettled,
}

impl View for OperationPhase {
    type V = OperationPhaseView;

    open spec fn view(&self) -> OperationPhaseView {
        match self {
            OperationPhase::Prepared => OperationPhaseView::Prepared,
            OperationPhase::InFlight => OperationPhaseView::InFlight,
            OperationPhase::Settled(x) => OperationPhaseView::Settled(x@),
            OperationPhase::Cancelled => OperationPhaseView::Cancelled,
            OperationPhase::Superseded => OperationPhaseView::Superseded,
            OperationPhase::ExtensionSettled => OperationPhaseView::ExtensionSettled,
        }
    }
}

impl DeepView for OperationPhase {
    type V = OperationPhaseView;

    open spec fn deep_view(&self) -> OperationPhaseView {
        self.view()
    }
}

impl Clone for OperationPhase {
    fn clone(&self) -> (r: Self)
        ensures
            r@ == self@,
    {
        match self {
            OperationPhase::Prepared => OperationPhase::Prepared,
            OperationPhase::InFlight => OperationPhase::InFlight,
            OperationPhase::Settled(x) => OperationPhase::Settled(x.clone()),
            OperationPhase::Cancelled => OperationPhase::Cancelled,
            OperationPhase::Superseded => OperationPhase::Superseded,
            OperationPhase::ExtensionSettled => OperationPhase::ExtensionSettled,
        }
    }
}

/// Authoritative lifecycle of an external operation.
#[derive(Debug, PartialEq, Eq)]
pub struct OperationState {
    /// Incremented whenever a logical operation is superseded or retried.
    pub generation: u64,
    /// Mutually exclusive phase/outcome.
    pub phase: OperationPhase,
}

/// What a [`OperationState`] holds.
#[verifier::ext_equal]
pub struct OperationStateView {
    pub generation: u64,
    pub phase: OperationPhaseView,
}

impl View for OperationState {
    type V = OperationStateView;

    open spec fn view(&self) -> OperationStateView {
        OperationStateView {
            generation: self.generation,
            phase: self.phase@,
        }
    }
}

impl DeepView for OperationState {
    type V = OperationStateView;

    open spec fn deep_view(&self) -> OperationStateView {
        self.view()
    }
}

impl Clone for OperationState {
    fn clone(&self) -> (r: Self)
        ensures
            r@ == self@,
    {
        OperationState {
            generation: self.generation,
            phase: self.phase.clone(),
        }
    }
}

/// Operation kind used to reject type-confused completions.
#[derive(Clone, Copy, Debug, PartialEq, Eq, Structural)]
pub enum OperationKind {
    /// A model call.
    Model,
    /// A tool call.
    Tool,
    /// A discovery refresh.
    Discovery,
    /// A store operation.
    Store,
}

impl View for OperationKind {
    type V = Self;

    open spec fn view(&self) -> Self {
        *self
    }
}

impl DeepView for OperationKind {
    type V = Self;

    open spec fn deep_view(&self) -> Self {
        self.view()
    }
}

/// Tick at which an effect in flight times out.
#[derive(Clone, Copy, Debug, PartialEq, Eq, Structural)]
pub struct EffectDeadline {
    /// First tick of the timeout.
    pub expires_at: u64,
}

impl View for EffectDeadline {
    type V = Self;

    open spec fn view(&self) -> Self {
        *self
    }
}

impl DeepView for EffectDeadline {
    type V = Self;

    open spec fn deep_view(&self) -> Self {
        self.view()
    }
}

} // verus!
