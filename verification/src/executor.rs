//! Executors bound to exact revisions, and what they give back.

use vstd::prelude::*;

use crate::effect::{ModelDecision, ModelDecisionView, ToolErrorKind};
use crate::identity::StableId;
use crate::message::{
    AssistantContent, AssistantContentView, CompletionUsage, ToolCall, ToolCallView,
};

verus! {

/// Executes one exact tool capability revision.
#[derive(Debug, PartialEq, Eq)]
pub struct ToolAdapter {
    /// Tool that the implementation is for.
    pub id: StableId,
    /// Revision that the implementation is for.
    pub revision: u64,
}

/// What a [`ToolAdapter`] holds.
#[verifier::ext_equal]
pub struct ToolAdapterView {
    pub id: Seq<char>,
    pub revision: u64,
}

impl View for ToolAdapter {
    type V = ToolAdapterView;

    open spec fn view(&self) -> ToolAdapterView {
        ToolAdapterView {
            id: self.id@,
            revision: self.revision,
        }
    }
}

impl DeepView for ToolAdapter {
    type V = ToolAdapterView;

    open spec fn deep_view(&self) -> ToolAdapterView {
        self.view()
    }
}

impl Clone for ToolAdapter {
    fn clone(&self) -> (r: Self)
        ensures
            r@ == self@,
    {
        ToolAdapter {
            id: self.id.clone(),
            revision: self.revision,
        }
    }
}

/// Executes one exact addressable store capability revision.
#[derive(Debug, PartialEq, Eq)]
pub struct StoreAdapter {
    /// Store that the implementation is for.
    pub id: StableId,
    /// Revision that the implementation is for.
    pub revision: u64,
}

/// What a [`StoreAdapter`] holds.
#[verifier::ext_equal]
pub struct StoreAdapterView {
    pub id: Seq<char>,
    pub revision: u64,
}

impl View for StoreAdapter {
    type V = StoreAdapterView;

    open spec fn view(&self) -> StoreAdapterView {
        StoreAdapterView {
            id: self.id@,
            revision: self.revision,
        }
    }
}

impl DeepView for StoreAdapter {
    type V = StoreAdapterView;

    open spec fn deep_view(&self) -> StoreAdapterView {
        self.view()
    }
}

impl Clone for StoreAdapter {
    fn clone(&self) -> (r: Self)
        ensures
            r@ == self@,
    {
        StoreAdapter {
            id: self.id.clone(),
            revision: self.revision,
        }
    }
}

/// Binds a discovery implementation to one stable source identity.
#[derive(Debug, PartialEq, Eq)]
pub struct DiscoveryAdapter {
    /// Source that the implementation is for.
    pub source_id: StableId,
}

/// What a [`DiscoveryAdapter`] holds.
#[verifier::ext_equal]
pub struct DiscoveryAdapterView {
    pub source_id: Seq<char>,
}

impl View for DiscoveryAdapter {
    type V = DiscoveryAdapterView;

    open spec fn view(&self) -> DiscoveryAdapterView {
        DiscoveryAdapterView {
            source_id: self.source_id@,
        }
    }
}

impl DeepView for DiscoveryAdapter {
    type V = DiscoveryAdapterView;

    open spec fn deep_view(&self) -> DiscoveryAdapterView {
        self.view()
    }
}

impl Clone for DiscoveryAdapter {
    fn clone(&self) -> (r: Self)
        ensures
            r@ == self@,
    {
        DiscoveryAdapter {
            source_id: self.source_id.clone(),
        }
    }
}

/// Executes model effects, where it is bound to a decision only those of that decision.
#[derive(Debug, PartialEq, Eq)]
pub struct CompletionModelAdapter {
    /// Decision that the model is bound to, where it is bound.
    pub binding: Option<ModelDecision>,
}

/// What a [`CompletionModelAdapter`] holds.
#[verifier::ext_equal]
pub struct CompletionModelAdapterView {
    pub binding: Option<ModelDecisionView>,
}

impl View for CompletionModelAdapter {
    type V = CompletionModelAdapterView;

    open spec fn view(&self) -> CompletionModelAdapterView {
        CompletionModelAdapterView {
            binding: self.binding.deep_view(),
        }
    }
}

impl DeepView for CompletionModelAdapter {
    type V = CompletionModelAdapterView;

    open spec fn deep_view(&self) -> CompletionModelAdapterView {
        self.view()
    }
}

impl Clone for CompletionModelAdapter {
    fn clone(&self) -> (r: Self)
        ensures
            r@ == self@,
    {
        let r = CompletionModelAdapter {
            binding: self.binding.clone(),
        };
        assert(r.binding.deep_view() =~= self.binding.deep_view());
        r
    }
}

/// What encoding the content of a tool output gave.
#[derive(Debug, PartialEq, Eq)]
pub enum EncodedContent {
    /// The encoded content.
    Encoded(serde_json::Value),
    /// Why it could not be encoded.
    Refused(String),
}

/// What a [`EncodedContent`] holds.
#[verifier::ext_equal]
pub enum EncodedContentView {
    Encoded(serde_json::Value),
    Refused(Seq<char>),
}

impl View for EncodedContent {
    type V = EncodedContentView;

    open spec fn view(&self) -> EncodedContentView {
        match self {
            EncodedContent::Encoded(x) => EncodedContentView::Encoded(*x),
            EncodedContent::Refused(x) => EncodedContentView::Refused(x@),
        }
    }
}

impl DeepView for EncodedContent {
    type V = EncodedContentView;

    open spec fn deep_view(&self) -> EncodedContentView {
        self.view()
    }
}

impl Clone for EncodedContent {
    fn clone(&self) -> (r: Self)
        ensures
            r@ == self@,
    {
        match self {
            EncodedContent::Encoded(x) => EncodedContent::Encoded(x.clone()),
            EncodedContent::Refused(x) => EncodedContent::Refused(x.clone()),
        }
    }
}

/// Output of a tool as the model sees it.
#[derive(Debug, PartialEq, Eq)]
pub struct EncodedOutput {
    /// Rendered text.
    pub presentation: String,
    /// Encoded content.
    pub raw: EncodedContent,
}

/// What a [`EncodedOutput`] holds.
#[verifier::ext_equal]
pub struct EncodedOutputView {
    pub presentation: Seq<char>,
    pub raw: EncodedContentView,
}

impl View for EncodedOutput {
    type V = EncodedOutputView;

    open spec fn view(&self) -> EncodedOutputView {
        EncodedOutputView {
            presentation: self.presentation@,
            raw: self.raw@,
        }
    }
}

impl DeepView for EncodedOutput {
    type V = EncodedOutputView;

    open spec fn deep_view(&self) -> EncodedOutputView {
        self.view()
    }
}

impl Clone for EncodedOutput {
    fn clone(&self) -> (r: Self)
        ensures
            r@ == self@,
    {
        EncodedOutput {
            presentation: self.presentation.clone(),
            raw: self.raw.clone(),
        }
    }
}

/// Failure of a tool: what the operator sees, and what the model sees.
#[derive(Debug, PartialEq, Eq)]
pub struct ToolExecutionError {
    /// Operator-facing diagnostic.
    pub message: String,
    /// Whether policy may retry the failure, where that is known.
    pub retryable: Option<bool>,
    /// Stable classification.
    pub kind: ToolErrorKind,
    /// Whether the tool refused the call.
    pub refusal: bool,
    /// What the model sees.
    pub model_output: EncodedOutput,
}

/// What a [`ToolExecutionError`] holds.
#[verifier::ext_equal]
pub struct ToolExecutionErrorView {
    pub message: Seq<char>,
    pub retryable: Option<bool>,
    pub kind: ToolErrorKind,
    pub refusal: bool,
    pub model_output: EncodedOutputView,
}

impl View for ToolExecutionError {
    type V = ToolExecutionErrorView;

    open spec fn view(&self) -> ToolExecutionErrorView {
        ToolExecutionErrorView {
            message: self.message@,
            retryable: self.retryable,
            kind: self.kind,
            refusal: self.refusal,
            model_output: self.model_output@,
        }
    }
}

impl DeepView for ToolExecutionError {
    type V = ToolExecutionErrorView;

    open spec fn deep_view(&self) -> ToolExecutionErrorView {
        self.view()
    }
}

impl Clone for ToolExecutionError {
    fn clone(&self) -> (r: Self)
        ensures
            r@ == self@,
    {
        ToolExecutionError {
            message: self.message.clone(),
            retryable: self.retryable,
            kind: self.kind,
            refusal: self.refusal,
            model_output: self.model_output.clone(),
        }
    }
}

/// What running a tool gave.
#[derive(Debug, PartialEq, Eq)]
pub enum ToolOutcome {
    /// The arguments could not be encoded.
    Unencodable(String),
    /// The call failed.
    Failed(ToolExecutionError),
    /// The call succeeded.
    Completed(EncodedOutput),
}

/// What a [`ToolOutcome`] holds.
#[verifier::ext_equal]
pub enum ToolOutcomeView {
    Unencodable(Seq<char>),
    Failed(ToolExecutionErrorView),
    Completed(EncodedOutputView),
}

impl View for ToolOutcome {
    type V = ToolOutcomeView;

    open spec fn view(&self) -> ToolOutcomeView {
        match self {
            ToolOutcome::Unencodable(x) => ToolOutcomeView::Unencodable(x@),
            ToolOutcome::Failed(x) => ToolOutcomeView::Failed(x@),
            ToolOutcome::Completed(x) => ToolOutcomeView::Completed(x@),
        }
    }
}

impl DeepView for ToolOutcome {
    type V = ToolOutcomeView;

    open spec fn deep_view(&self) -> ToolOutcomeView {
        self.view()
    }
}

impl Clone for ToolOutcome {
    fn clone(&self) -> (r: Self)
        ensures
            r@ == self@,
    {
        match self {
            ToolOutcome::Unencodable(x) => ToolOutcome::Unencodable(x.clone()),
            ToolOutcome::Failed(x) => ToolOutcome::Failed(x.clone()),
            ToolOutcome::Completed(x) => ToolOutcome::Completed(x.clone()),
        }
    }
}

/// Response of a model.
#[derive(Debug, PartialEq, Eq)]
pub struct ModelResponse {
    /// Content in the order of the provider.
    pub content: Vec<AssistantContent>,
    /// Provider-reported usage.
    pub usage: CompletionUsage,
    /// Provider message id, where there is one.
    pub message_id: Option<String>,
}

/// What a [`ModelResponse`] holds.
#[verifier::ext_equal]
pub struct ModelResponseView {
    pub content: Seq<AssistantContentView>,
    pub usage: CompletionUsage,
    pub message_id: Option<Seq<char>>,
}

impl View for ModelResponse {
    type V = ModelResponseView;

    open spec fn view(&self) -> ModelResponseView {
        ModelResponseView {
            content: self.content.deep_view(),
            usage: self.usage,
            message_id: self.message_id.deep_view(),
        }
    }
}

impl DeepView for ModelResponse {
    type V = ModelResponseView;

    open spec fn deep_view(&self) -> ModelResponseView {
        self.view()
    }
}

impl Clone for ModelResponse {
    fn clone(&self) -> (r: Self)
        ensures
            r@ == self@,
    {
        let r = ModelResponse {
            content: self.content.clone(),
            usage: self.usage,
            message_id: self.message_id.clone(),
        };
        assert(r.content.deep_view() =~= self.content.deep_view());
        assert(r.message_id.deep_view() =~= self.message_id.deep_view());
        r
    }
}

/// Streamed tool call with the id that correlates it.
#[derive(Debug, PartialEq, Eq)]
pub struct CorrelatedCall {
    /// Canonical id of the call.
    pub call_id: String,
    /// Call as the provider stated it.
    pub tool_call: ToolCall,
    /// Stream-local correlation identity.
    pub internal_call_id: String,
}

/// What a [`CorrelatedCall`] holds.
#[verifier::ext_equal]
pub struct CorrelatedCallView {
    pub call_id: Seq<char>,
    pub tool_call: ToolCallView,
    pub internal_call_id: Seq<char>,
}

impl View for CorrelatedCall {
    type V = CorrelatedCallView;

    open spec fn view(&self) -> CorrelatedCallView {
        CorrelatedCallView {
            call_id: self.call_id@,
            tool_call: self.tool_call@,
            internal_call_id: self.internal_call_id@,
        }
    }
}

impl DeepView for CorrelatedCall {
    type V = CorrelatedCallView;

    open spec fn deep_view(&self) -> CorrelatedCallView {
        self.view()
    }
}

impl Clone for CorrelatedCall {
    fn clone(&self) -> (r: Self)
        ensures
            r@ == self@,
    {
        CorrelatedCall {
            call_id: self.call_id.clone(),
            tool_call: self.tool_call.clone(),
            internal_call_id: self.internal_call_id.clone(),
        }
    }
}

/// Capability revision that an executor is registered for.
#[derive(Debug, PartialEq, Eq)]
pub struct ExecutorKey {
    /// Capability.
    pub id: StableId,
    /// Revision.
    pub revision: u64,
}

/// What a [`ExecutorKey`] holds.
#[verifier::ext_equal]
pub struct ExecutorKeyView {
    pub id: Seq<char>,
    pub revision: u64,
}

impl View for ExecutorKey {
    type V = ExecutorKeyView;

    open spec fn view(&self) -> ExecutorKeyView {
        ExecutorKeyView {
            id: self.id@,
            revision: self.revision,
        }
    }
}

impl DeepView for ExecutorKey {
    type V = ExecutorKeyView;

    open spec fn deep_view(&self) -> ExecutorKeyView {
        self.view()
    }
}

impl Clone for ExecutorKey {
    fn clone(&self) -> (r: Self)
        ensures
            r@ == self@,
    {
        ExecutorKey {
            id: self.id.clone(),
            revision: self.revision,
        }
    }
}

} // verus!
