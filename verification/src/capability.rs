//! Capabilities, grants and policies that entities carry.

use vstd::prelude::*;

use std::collections::BTreeMap;

use crate::column::Entity;
use crate::effect::{TranscriptEntry, TranscriptEntryView};
use crate::identity::StableId;

verus! {

/// Lifecycle point governed by a policy, in the order of a run.
#[derive(Clone, Copy, Debug, PartialEq, Eq, Structural)]
pub enum PolicyPoint {
    /// Before a model request is dispatched.
    Request,
    /// Before one tool call is dispatched.
    ToolCall,
    /// When a model emits a tool call outside its immutable snapshot.
    InvalidToolCall,
    /// After tool execution and before transcript commit.
    ToolResult,
    /// After a model response settles and before turn commit.
    CompletionResponse,
    /// Before an accepted text delta is published to subscribers.
    TextDelta,
    /// Before an accepted tool-call delta is published to subscribers.
    ToolCallDelta,
}

impl View for PolicyPoint {
    type V = Self;

    open spec fn view(&self) -> Self {
        *self
    }
}

impl DeepView for PolicyPoint {
    type V = Self;

    open spec fn deep_view(&self) -> Self {
        self.view()
    }
}

/// Non-sticky changes contributed by one request policy.
///
/// Patches are reduced in accepted policy order. Context is appended, provider parameters are
/// shallow-merged, tool allow-lists are intersected, and of scalar and history values the last
/// written one stays. The result is applied only to the operation being evaluated; a model call
/// that carries on after tool calls keeps the request that was accepted.
#[derive(Debug, PartialEq, Eq)]
pub struct RequestPatch {
    /// Replacement instructions for this request.
    pub instructions: Option<String>,
    /// Bits of the sampling temperature.
    pub temperature_bits: Option<u64>,
    /// Replacement output-token limit.
    pub max_tokens: Option<u64>,
    /// Replacement tool-selection behaviour.
    pub tool_choice: Option<ModelToolChoice>,
    /// Allow-list intersected with the snapshotted tools.
    pub active_tools: Option<Vec<String>>,
    /// Provider-specific top-level parameters.
    pub additional_params: Option<serde_json::Value>,
    /// Context documents appended to the request.
    pub extra_context: Vec<RetrievedDocument>,
    /// Replacement canonical history preceding the current prompt.
    pub history: Option<Vec<TranscriptEntry>>,
}

/// What a [`RequestPatch`] holds.
#[verifier::ext_equal]
pub struct RequestPatchView {
    pub instructions: Option<Seq<char>>,
    pub temperature_bits: Option<u64>,
    pub max_tokens: Option<u64>,
    pub tool_choice: Option<ModelToolChoiceView>,
    pub active_tools: Option<Seq<Seq<char>>>,
    pub additional_params: Option<serde_json::Value>,
    pub extra_context: Seq<RetrievedDocumentView>,
    pub history: Option<Seq<TranscriptEntryView>>,
}

impl View for RequestPatch {
    type V = RequestPatchView;

    open spec fn view(&self) -> RequestPatchView {
        RequestPatchView {
            instructions: self.instructions.deep_view(),
            temperature_bits: self.temperature_bits,
            max_tokens: self.max_tokens,
            tool_choice: self.tool_choice.deep_view(),
            active_tools: self.active_tools.deep_view(),
            additional_params: self.additional_params,
            extra_context: self.extra_context.deep_view(),
            history: self.history.deep_view(),
        }
    }
}

impl DeepView for RequestPatch {
    type V = RequestPatchView;

    open spec fn deep_view(&self) -> RequestPatchView {
        self.view()
    }
}

impl Clone for RequestPatch {
    fn clone(&self) -> (r: Self)
        ensures
            r@ == self@,
    {
        let r = RequestPatch {
            instructions: self.instructions.clone(),
            temperature_bits: self.temperature_bits,
            max_tokens: self.max_tokens,
            tool_choice: self.tool_choice.clone(),
            active_tools: self.active_tools.clone(),
            additional_params: self.additional_params.clone(),
            extra_context: self.extra_context.clone(),
            history: self.history.clone(),
        };
        assert(r.instructions.deep_view() =~= self.instructions.deep_view());
        assert(r.tool_choice.deep_view() =~= self.tool_choice.deep_view());
        assert(r.active_tools.deep_view() =~= self.active_tools.deep_view());
        assert(r.extra_context.deep_view() =~= self.extra_context.deep_view());
        assert(r.history.deep_view() =~= self.history.deep_view());
        r
    }
}

/// Provider-independent tool selection accepted as ECS configuration.
#[derive(Debug, PartialEq, Eq)]
pub enum ModelToolChoice {
    /// Let the provider decide whether to call a tool.
    Auto,
    /// Do not permit tool calls.
    Never,
    /// Require at least one tool call.
    Required,
    /// Restrict selection to the named provider-facing tools.
    Specific(Vec<String>),
}

/// What a [`ModelToolChoice`] holds.
#[verifier::ext_equal]
pub enum ModelToolChoiceView {
    Auto,
    Never,
    Required,
    Specific(Seq<Seq<char>>),
}

impl View for ModelToolChoice {
    type V = ModelToolChoiceView;

    open spec fn view(&self) -> ModelToolChoiceView {
        match self {
            ModelToolChoice::Auto => ModelToolChoiceView::Auto,
            ModelToolChoice::Never => ModelToolChoiceView::Never,
            ModelToolChoice::Required => ModelToolChoiceView::Required,
            ModelToolChoice::Specific(x) => ModelToolChoiceView::Specific(x.deep_view()),
        }
    }
}

impl DeepView for ModelToolChoice {
    type V = ModelToolChoiceView;

    open spec fn deep_view(&self) -> ModelToolChoiceView {
        self.view()
    }
}

impl Clone for ModelToolChoice {
    fn clone(&self) -> (r: Self)
        ensures
            r@ == self@,
    {
        let r = match self {
            ModelToolChoice::Auto => ModelToolChoice::Auto,
            ModelToolChoice::Never => ModelToolChoice::Never,
            ModelToolChoice::Required => ModelToolChoice::Required,
            ModelToolChoice::Specific(x) => ModelToolChoice::Specific(x.clone()),
        };
        assert(r@ =~~= self@);
        r
    }
}

/// Provider-independent retrieved document.
#[derive(Debug, PartialEq, Eq)]
pub struct RetrievedDocument {
    /// Stable store-local document identity.
    pub id: String,
    /// Text supplied to the model.
    pub text: String,
    /// Additional deterministic string metadata.
    pub metadata: BTreeMap<String, String>,
}

/// What a [`RetrievedDocument`] holds.
#[verifier::ext_equal]
pub struct RetrievedDocumentView {
    pub id: Seq<char>,
    pub text: Seq<char>,
    pub metadata: Map<Seq<char>, Seq<char>>,
}

impl View for RetrievedDocument {
    type V = RetrievedDocumentView;

    open spec fn view(&self) -> RetrievedDocumentView {
        RetrievedDocumentView {
            id: self.id@,
            text: self.text@,
            metadata: self.metadata.deep_view(),
        }
    }
}

impl RetrievedDocument {
    /// A document without additional metadata.
    pub fn new(id: String, text: String) -> (r: Self)
        ensures
            r@ == (RetrievedDocumentView { id: id@, text: text@, metadata: Map::empty() }),
    {
        let metadata: BTreeMap<String, String> = BTreeMap::new();
        proof {
            reveal(vstd::std_specs::btree::btree_map_deep_view_impl);
            assert(metadata.deep_view() =~= Map::empty());
        }
        RetrievedDocument { id, text, metadata }
    }
}

impl DeepView for RetrievedDocument {
    type V = RetrievedDocumentView;

    open spec fn deep_view(&self) -> RetrievedDocumentView {
        self.view()
    }
}

impl Clone for RetrievedDocument {
    fn clone(&self) -> (r: Self)
        ensures
            r@ == self@,
    {
        let metadata = self.metadata.clone();
        proof {
            reveal(vstd::std_specs::btree::btree_map_deep_view_impl);
            assert(metadata.deep_view() =~= self.metadata.deep_view());
        }
        RetrievedDocument { id: self.id.clone(), text: self.text.clone(), metadata }
    }
}

/// Agent configuration stored directly on an entity.
#[derive(Debug, PartialEq, Eq)]
pub struct Agent {
    /// Human-readable identity used by telemetry and extension queries.
    pub name: Option<String>,
    /// Human-readable purpose used by composition tooling.
    pub description: Option<String>,
    /// Instructions used for newly prepared turns.
    pub instructions: String,
    /// Optional sampling temperature encoded as IEEE-754 bits for exact snapshots.
    pub temperature_bits: Option<u64>,
    /// Optional provider output-token limit.
    pub max_tokens: Option<u64>,
    /// Provider tool-selection behavior.
    pub tool_choice: Option<ModelToolChoice>,
    /// Provider-specific parameters copied into each accepted model operation.
    pub additional_params: Option<serde_json::Value>,
    /// Static context documents supplied to every model operation.
    pub documents: Vec<RetrievedDocument>,
    /// Maximum number of model operations accepted for one run.
    pub max_model_calls: u32,
    /// Tool whose arguments terminate a structured extraction run.
    pub terminal_tool: Option<String>,
}

/// What a [`Agent`] holds.
#[verifier::ext_equal]
pub struct AgentView {
    pub name: Option<Seq<char>>,
    pub description: Option<Seq<char>>,
    pub instructions: Seq<char>,
    pub temperature_bits: Option<u64>,
    pub max_tokens: Option<u64>,
    pub tool_choice: Option<ModelToolChoiceView>,
    pub additional_params: Option<serde_json::Value>,
    pub documents: Seq<RetrievedDocumentView>,
    pub max_model_calls: u32,
    pub terminal_tool: Option<Seq<char>>,
}

impl View for Agent {
    type V = AgentView;

    open spec fn view(&self) -> AgentView {
        AgentView {
            name: self.name.deep_view(),
            description: self.description.deep_view(),
            instructions: self.instructions@,
            temperature_bits: self.temperature_bits,
            max_tokens: self.max_tokens,
            tool_choice: self.tool_choice.deep_view(),
            additional_params: self.additional_params,
            documents: self.documents.deep_view(),
            max_model_calls: self.max_model_calls,
            terminal_tool: self.terminal_tool.deep_view(),
        }
    }
}

impl DeepView for Agent {
    type V = AgentView;

    open spec fn deep_view(&self) -> AgentView {
        self.view()
    }
}

impl Clone for Agent {
    fn clone(&self) -> (r: Self)
        ensures
            r@ == self@,
    {
        let r = Agent {
            name: self.name.clone(),
            description: self.description.clone(),
            instructions: self.instructions.clone(),
            temperature_bits: self.temperature_bits,
            max_tokens: self.max_tokens,
            tool_choice: self.tool_choice.clone(),
            additional_params: self.additional_params.clone(),
            documents: self.documents.clone(),
            max_model_calls: self.max_model_calls,
            terminal_tool: self.terminal_tool.clone(),
        };
        assert(r.name.deep_view() =~= self.name.deep_view());
        assert(r.description.deep_view() =~= self.description.deep_view());
        assert(r.tool_choice.deep_view() =~= self.tool_choice.deep_view());
        assert(r.documents.deep_view() =~= self.documents.deep_view());
        assert(r.terminal_tool.deep_view() =~= self.terminal_tool.deep_view());
        r
    }
}

/// Native structured-output requirement attached to an agent entity.
///
/// Preparation copies this value into each immutable model effect so later
/// mutations affect only future operations.
#[derive(Debug, PartialEq, Eq)]
pub struct OutputRequirement {
    /// Provider-facing JSON Schema and the schema used for final commit checks.
    pub schema: serde_json::Value,
}

impl View for OutputRequirement {
    type V = Self;

    open spec fn view(&self) -> Self {
        *self
    }
}

impl DeepView for OutputRequirement {
    type V = Self;

    open spec fn deep_view(&self) -> Self {
        self.view()
    }
}

impl Clone for OutputRequirement {
    fn clone(&self) -> (r: Self)
        ensures
            r@ == self@,
    {
        OutputRequirement {
            schema: self.schema.clone(),
        }
    }
}

/// Retrieval configuration attached to an agent entity.
#[derive(Clone, Copy, Debug, PartialEq, Eq, Structural)]
pub struct RetrievalRequirement {
    /// Maximum deterministically ordered documents requested from vector search.
    pub limit: usize,
}

impl View for RetrievalRequirement {
    type V = Self;

    open spec fn view(&self) -> Self {
        *self
    }
}

impl DeepView for RetrievalRequirement {
    type V = Self;

    open spec fn deep_view(&self) -> Self {
        self.view()
    }
}

/// A configured model capability.
#[derive(Debug, PartialEq, Eq)]
pub struct ModelCapability {
    /// Provider identifier used by effect executors.
    pub provider: String,
    /// Provider model identifier.
    pub model: String,
    /// Immutable capability revision.
    pub revision: u64,
    /// Retired capabilities cannot be selected for new turns.
    pub retired: bool,
}

/// What a [`ModelCapability`] holds.
#[verifier::ext_equal]
pub struct ModelCapabilityView {
    pub provider: Seq<char>,
    pub model: Seq<char>,
    pub revision: u64,
    pub retired: bool,
}

impl View for ModelCapability {
    type V = ModelCapabilityView;

    open spec fn view(&self) -> ModelCapabilityView {
        ModelCapabilityView {
            provider: self.provider@,
            model: self.model@,
            revision: self.revision,
            retired: self.retired,
        }
    }
}

impl DeepView for ModelCapability {
    type V = ModelCapabilityView;

    open spec fn deep_view(&self) -> ModelCapabilityView {
        self.view()
    }
}

impl Clone for ModelCapability {
    fn clone(&self) -> (r: Self)
        ensures
            r@ == self@,
    {
        ModelCapability {
            provider: self.provider.clone(),
            model: self.model.clone(),
            revision: self.revision,
            retired: self.retired,
        }
    }
}

/// Provider-facing tool metadata stored on a tool entity.
#[derive(Debug, PartialEq, Eq)]
pub struct ToolCapability {
    /// Provider-facing name.
    pub name: String,
    /// Provider-facing description.
    pub description: String,
    /// JSON Schema advertised to the model for tool arguments.
    pub parameters: serde_json::Value,
    /// Deterministic ordering key within an agent's visible tools.
    pub order: u32,
    /// Immutable executable revision.
    pub revision: u64,
    /// Retired tools are excluded from new decisions.
    pub retired: bool,
}

/// What a [`ToolCapability`] holds.
#[verifier::ext_equal]
pub struct ToolCapabilityView {
    pub name: Seq<char>,
    pub description: Seq<char>,
    pub parameters: serde_json::Value,
    pub order: u32,
    pub revision: u64,
    pub retired: bool,
}

impl View for ToolCapability {
    type V = ToolCapabilityView;

    open spec fn view(&self) -> ToolCapabilityView {
        ToolCapabilityView {
            name: self.name@,
            description: self.description@,
            parameters: self.parameters,
            order: self.order,
            revision: self.revision,
            retired: self.retired,
        }
    }
}

impl DeepView for ToolCapability {
    type V = ToolCapabilityView;

    open spec fn deep_view(&self) -> ToolCapabilityView {
        self.view()
    }
}

impl Clone for ToolCapability {
    fn clone(&self) -> (r: Self)
        ensures
            r@ == self@,
    {
        ToolCapability {
            name: self.name.clone(),
            description: self.description.clone(),
            parameters: self.parameters.clone(),
            order: self.order,
            revision: self.revision,
            retired: self.retired,
        }
    }
}

/// An addressable infrastructure/store capability.
#[derive(Debug, PartialEq, Eq)]
pub struct StoreCapability {
    /// Capability kind, such as `conversation-memory` or `vector-search`.
    pub kind: String,
    /// Immutable capability revision.
    pub revision: u64,
    /// Retired stores cannot be selected for new operations.
    pub retired: bool,
}

/// What a [`StoreCapability`] holds.
#[verifier::ext_equal]
pub struct StoreCapabilityView {
    pub kind: Seq<char>,
    pub revision: u64,
    pub retired: bool,
}

impl View for StoreCapability {
    type V = StoreCapabilityView;

    open spec fn view(&self) -> StoreCapabilityView {
        StoreCapabilityView {
            kind: self.kind@,
            revision: self.revision,
            retired: self.retired,
        }
    }
}

impl DeepView for StoreCapability {
    type V = StoreCapabilityView;

    open spec fn deep_view(&self) -> StoreCapabilityView {
        self.view()
    }
}

impl Clone for StoreCapability {
    fn clone(&self) -> (r: Self)
        ensures
            r@ == self@,
    {
        StoreCapability {
            kind: self.kind.clone(),
            revision: self.revision,
            retired: self.retired,
        }
    }
}

/// Stable source-local identity of a discovered capability.
#[derive(Debug, PartialEq, Eq)]
pub struct DiscoveryKey(pub String);

/// What a [`DiscoveryKey`] holds.
#[verifier::ext_equal]
pub struct DiscoveryKeyView(pub Seq<char>);

impl View for DiscoveryKey {
    type V = DiscoveryKeyView;

    open spec fn view(&self) -> DiscoveryKeyView {
        DiscoveryKeyView(self.0@)
    }
}

impl DeepView for DiscoveryKey {
    type V = DiscoveryKeyView;

    open spec fn deep_view(&self) -> DiscoveryKeyView {
        self.view()
    }
}

impl Clone for DiscoveryKey {
    fn clone(&self) -> (r: Self)
        ensures
            r@ == self@,
    {
        DiscoveryKey(self.0.clone())
    }
}

/// Marks a retired capability version while in-flight decisions retain it.
#[derive(Clone, Copy, Debug, PartialEq, Eq, Structural)]
pub struct RetiredCapability {
    /// Source generation that retired this version.
    pub generation: u64,
}

impl View for RetiredCapability {
    type V = Self;

    open spec fn view(&self) -> Self {
        *self
    }
}

impl DeepView for RetiredCapability {
    type V = Self;

    open spec fn deep_view(&self) -> Self {
        self.view()
    }
}

/// Independent many-to-many access metadata between an agent and a tool.
#[derive(Clone, Copy, Debug, PartialEq, Eq, Structural)]
pub struct ToolGrant {
    /// Explicit precedence for collision resolution.
    pub order: u32,
    /// Disabled grants are excluded from new decisions.
    pub enabled: bool,
}

impl View for ToolGrant {
    type V = Self;

    open spec fn view(&self) -> Self {
        *self
    }
}

impl DeepView for ToolGrant {
    type V = Self;

    open spec fn deep_view(&self) -> Self {
        self.view()
    }
}

/// Independent access metadata between an agent and store.
#[derive(Clone, Copy, Debug, PartialEq, Eq, Structural)]
pub struct StoreGrant {
    /// Explicit selection precedence.
    pub order: u32,
    /// Disabled grants are excluded from new operations.
    pub enabled: bool,
}

impl View for StoreGrant {
    type V = Self;

    open spec fn view(&self) -> Self {
        *self
    }
}

impl DeepView for StoreGrant {
    type V = Self;

    open spec fn deep_view(&self) -> Self {
        self.view()
    }
}

/// Ergonomic and serialized policy input.
///
/// The policy stage acts on the first three rules. Every other rule describes what an extension
/// is to do at its point: the runtime keeps it, persists it and tells its point, but does not
/// enforce it.
#[derive(Debug, PartialEq, Eq)]
pub enum PolicyRule {
    /// Permit progression without modification.
    Allow,
    /// Deny prompts containing this substring.
    DenyPromptContains(String),
    /// Apply a non-sticky patch to each newly prepared model request.
    PatchRequest(RequestPatch),
    /// Replace arguments for matching tool calls before dispatch.
    /// Not enforced by the runtime.
    RewriteToolArguments {
        /// Optional name; none applies to every one.
        tool: Option<String>,
        /// Replacement JSON arguments.
        arguments: serde_json::Value,
    },
    /// Skip matching tool calls and return synthetic feedback to the model.
    /// Not enforced by the runtime.
    SkipToolCall {
        /// Optional name; none applies to every one.
        tool: Option<String>,
        /// Model-visible feedback.
        reason: String,
    },
    /// Repair an invalid model-emitted tool name.
    /// Not enforced by the runtime.
    RepairInvalidTool {
        /// Optional name; none applies to every one.
        from: Option<String>,
        /// Replacement name resolved against the immutable advertised snapshot.
        to: String,
    },
    /// Retry the model after an invalid tool call.
    /// Not enforced by the runtime.
    RetryInvalidTool {
        /// Optional name; none applies to every one.
        tool: Option<String>,
        /// Corrective feedback returned as a synthetic result.
        feedback: String,
    },
    /// Treat an invalid tool call as skipped.
    /// Not enforced by the runtime.
    SkipInvalidTool {
        /// Optional name; none applies to every one.
        tool: Option<String>,
        /// Model-visible feedback.
        reason: String,
    },
    /// Rewrite only the model-visible presentation of matching tool results.
    /// Not enforced by the runtime.
    RewriteToolResult {
        /// Optional name; none applies to every one.
        tool: Option<String>,
        /// Replacement model-visible presentation, encoded.
        presentation: serde_json::Value,
    },
    /// Stop a run after a matching tool result settles but before commit.
    /// Not enforced by the runtime.
    StopToolResult {
        /// Optional name; none applies to every one.
        tool: Option<String>,
        /// Audit-only stop reason.
        reason: String,
    },
    /// Replace normalized completion text before the model turn commits.
    /// Not enforced by the runtime.
    RewriteCompletionText {
        /// Replacement canonical text.
        text: String,
    },
    /// Stop when normalized completion text contains a substring.
    /// Not enforced by the runtime.
    StopCompletionContains {
        /// Substring matched against normalized completion text.
        needle: String,
        /// Audit-only stop reason.
        reason: String,
    },
    /// Stop a streaming run when a text delta contains a substring.
    /// Not enforced by the runtime.
    StopTextDeltaContains {
        /// Substring matched against the new delta.
        needle: String,
        /// Audit-only stop reason.
        reason: String,
    },
    /// Stop a streaming run when a tool-call delta contains a substring.
    /// Not enforced by the runtime.
    StopToolCallDeltaContains {
        /// Substring matched against a tool name or argument fragment.
        needle: String,
        /// Audit-only stop reason.
        reason: String,
    },
    /// Await an external approval operation at one lifecycle point.
    /// Not enforced by the runtime.
    RequireApproval {
        /// Lifecycle point whose progression is suspended.
        point: PolicyPoint,
        /// Owned prompt sent to the approval executor.
        prompt: String,
    },
    /// Delegate one lifecycle point to an extension.
    /// Not enforced by the runtime.
    Custom(PolicyPoint),
}

/// What a [`PolicyRule`] holds.
#[verifier::ext_equal]
pub enum PolicyRuleView {
    Allow,
    DenyPromptContains(Seq<char>),
    PatchRequest(RequestPatchView),
    RewriteToolArguments { tool: Option<Seq<char>>, arguments: serde_json::Value },
    SkipToolCall { tool: Option<Seq<char>>, reason: Seq<char> },
    RepairInvalidTool { from: Option<Seq<char>>, to: Seq<char> },
    RetryInvalidTool { tool: Option<Seq<char>>, feedback: Seq<char> },
    SkipInvalidTool { tool: Option<Seq<char>>, reason: Seq<char> },
    RewriteToolResult { tool: Option<Seq<char>>, presentation: serde_json::Value },
    StopToolResult { tool: Option<Seq<char>>, reason: Seq<char> },
    RewriteCompletionText { text: Seq<char> },
    StopCompletionContains { needle: Seq<char>, reason: Seq<char> },
    StopTextDeltaContains { needle: Seq<char>, reason: Seq<char> },
    StopToolCallDeltaContains { needle: Seq<char>, reason: Seq<char> },
    RequireApproval { point: PolicyPoint, prompt: Seq<char> },
    Custom(PolicyPoint),
}

impl View for PolicyRule {
    type V = PolicyRuleView;

    open spec fn view(&self) -> PolicyRuleView {
        match self {
            PolicyRule::Allow => PolicyRuleView::Allow,
            PolicyRule::DenyPromptContains(x) => PolicyRuleView::DenyPromptContains(x@),
            PolicyRule::PatchRequest(x) => PolicyRuleView::PatchRequest(x@),
            PolicyRule::RewriteToolArguments { tool, arguments } => PolicyRuleView::RewriteToolArguments {
                tool: tool.deep_view(),
                arguments: *arguments,
            },
            PolicyRule::SkipToolCall { tool, reason } => PolicyRuleView::SkipToolCall {
                tool: tool.deep_view(),
                reason: reason@,
            },
            PolicyRule::RepairInvalidTool { from, to } => PolicyRuleView::RepairInvalidTool {
                from: from.deep_view(),
                to: to@,
            },
            PolicyRule::RetryInvalidTool { tool, feedback } => PolicyRuleView::RetryInvalidTool {
                tool: tool.deep_view(),
                feedback: feedback@,
            },
            PolicyRule::SkipInvalidTool { tool, reason } => PolicyRuleView::SkipInvalidTool {
                tool: tool.deep_view(),
                reason: reason@,
            },
            PolicyRule::RewriteToolResult { tool, presentation } => PolicyRuleView::RewriteToolResult {
                tool: tool.deep_view(),
                presentation: *presentation,
            },
            PolicyRule::StopToolResult { tool, reason } => PolicyRuleView::StopToolResult {
                tool: tool.deep_view(),
                reason: reason@,
            },
            PolicyRule::RewriteCompletionText { text } => PolicyRuleView::RewriteCompletionText {
                text: text@,
            },
            PolicyRule::StopCompletionContains { needle, reason } => PolicyRuleView::StopCompletionContains {
                needle: needle@,
                reason: reason@,
            },
            PolicyRule::StopTextDeltaContains { needle, reason } => PolicyRuleView::StopTextDeltaContains {
                needle: needle@,
                reason: reason@,
            },
            PolicyRule::StopToolCallDeltaContains { needle, reason } => PolicyRuleView::StopToolCallDeltaContains {
                needle: needle@,
                reason: reason@,
            },
            PolicyRule::RequireApproval { point, prompt } => PolicyRuleView::RequireApproval {
                point: *point,
                prompt: prompt@,
            },
            PolicyRule::Custom(x) => PolicyRuleView::Custom(*x),
        }
    }
}

impl DeepView for PolicyRule {
    type V = PolicyRuleView;

    open spec fn deep_view(&self) -> PolicyRuleView {
        self.view()
    }
}

impl Clone for PolicyRule {
    fn clone(&self) -> (r: Self)
        ensures
            r@ == self@,
    {
        let r = match self {
            PolicyRule::Allow => PolicyRule::Allow,
            PolicyRule::DenyPromptContains(x) => PolicyRule::DenyPromptContains(x.clone()),
            PolicyRule::PatchRequest(x) => PolicyRule::PatchRequest(x.clone()),
            PolicyRule::RewriteToolArguments { tool, arguments } => PolicyRule::RewriteToolArguments {
                tool: tool.clone(),
                arguments: arguments.clone(),
            },
            PolicyRule::SkipToolCall { tool, reason } => PolicyRule::SkipToolCall {
                tool: tool.clone(),
                reason: reason.clone(),
            },
            PolicyRule::RepairInvalidTool { from, to } => PolicyRule::RepairInvalidTool {
                from: from.clone(),
                to: to.clone(),
            },
            PolicyRule::RetryInvalidTool { tool, feedback } => PolicyRule::RetryInvalidTool {
                tool: tool.clone(),
                feedback: feedback.clone(),
            },
            PolicyRule::SkipInvalidTool { tool, reason } => PolicyRule::SkipInvalidTool {
                tool: tool.clone(),
                reason: reason.clone(),
            },
            PolicyRule::RewriteToolResult { tool, presentation } => PolicyRule::RewriteToolResult {
                tool: tool.clone(),
                presentation: presentation.clone(),
            },
            PolicyRule::StopToolResult { tool, reason } => PolicyRule::StopToolResult {
                tool: tool.clone(),
                reason: reason.clone(),
            },
            PolicyRule::RewriteCompletionText { text } => PolicyRule::RewriteCompletionText {
                text: text.clone(),
            },
            PolicyRule::StopCompletionContains { needle, reason } => PolicyRule::StopCompletionContains {
                needle: needle.clone(),
                reason: reason.clone(),
            },
            PolicyRule::StopTextDeltaContains { needle, reason } => PolicyRule::StopTextDeltaContains {
                needle: needle.clone(),
                reason: reason.clone(),
            },
            PolicyRule::StopToolCallDeltaContains { needle, reason } => PolicyRule::StopToolCallDeltaContains {
                needle: needle.clone(),
                reason: reason.clone(),
            },
            PolicyRule::RequireApproval { point, prompt } => PolicyRule::RequireApproval {
                point: *point,
                prompt: prompt.clone(),
            },
            PolicyRule::Custom(x) => PolicyRule::Custom(*x),
        };
        assert(r@ =~~= self@);
        r
    }
}

/// Ordered ECS policy instance.
#[derive(Debug, PartialEq, Eq)]
pub struct Policy {
    /// Explicit composition order. Stable ID breaks ties.
    pub order: u32,
    /// Immutable policy revision recorded by accepted decisions.
    pub revision: u64,
    /// Data interpreted by the policy system.
    pub rule: PolicyRule,
}

/// What a [`Policy`] holds.
#[verifier::ext_equal]
pub struct PolicyView {
    pub order: u32,
    pub revision: u64,
    pub rule: PolicyRuleView,
}

impl View for Policy {
    type V = PolicyView;

    open spec fn view(&self) -> PolicyView {
        PolicyView {
            order: self.order,
            revision: self.revision,
            rule: self.rule@,
        }
    }
}

impl DeepView for Policy {
    type V = PolicyView;

    open spec fn deep_view(&self) -> PolicyView {
        self.view()
    }
}

impl Clone for Policy {
    fn clone(&self) -> (r: Self)
        ensures
            r@ == self@,
    {
        Policy {
            order: self.order,
            revision: self.revision,
            rule: self.rule.clone(),
        }
    }
}

/// One accepted policy revision.
#[derive(Debug, PartialEq, Eq)]
pub struct AcceptedPolicy {
    /// Persistent policy identity.
    pub id: StableId,
    /// Runtime-local policy identity retained for correlation.
    pub entity: Entity,
    /// Exact revision applied.
    pub revision: u64,
    /// Explicit composition order accepted for this evaluation.
    pub order: u32,
    /// Exact lifecycle capability accepted for this evaluation.
    pub point: PolicyPoint,
}

/// What a [`AcceptedPolicy`] holds.
#[verifier::ext_equal]
pub struct AcceptedPolicyView {
    pub id: Seq<char>,
    pub entity: Entity,
    pub revision: u64,
    pub order: u32,
    pub point: PolicyPoint,
}

impl View for AcceptedPolicy {
    type V = AcceptedPolicyView;

    open spec fn view(&self) -> AcceptedPolicyView {
        AcceptedPolicyView {
            id: self.id@,
            entity: self.entity,
            revision: self.revision,
            order: self.order,
            point: self.point,
        }
    }
}

impl DeepView for AcceptedPolicy {
    type V = AcceptedPolicyView;

    open spec fn deep_view(&self) -> AcceptedPolicyView {
        self.view()
    }
}

impl Clone for AcceptedPolicy {
    fn clone(&self) -> (r: Self)
        ensures
            r@ == self@,
    {
        AcceptedPolicy {
            id: self.id.clone(),
            entity: self.entity,
            revision: self.revision,
            order: self.order,
            point: self.point,
        }
    }
}

/// Immutable record of the ordered policy instances applied to an operation.
#[derive(Debug, PartialEq, Eq)]
pub struct AcceptedPolicies(pub Vec<AcceptedPolicy>);

/// What a [`AcceptedPolicies`] holds.
#[verifier::ext_equal]
pub struct AcceptedPoliciesView(pub Seq<AcceptedPolicyView>);

impl View for AcceptedPolicies {
    type V = AcceptedPoliciesView;

    open spec fn view(&self) -> AcceptedPoliciesView {
        AcceptedPoliciesView(self.0.deep_view())
    }
}

impl DeepView for AcceptedPolicies {
    type V = AcceptedPoliciesView;

    open spec fn deep_view(&self) -> AcceptedPoliciesView {
        self.view()
    }
}

impl Clone for AcceptedPolicies {
    fn clone(&self) -> (r: Self)
        ensures
            r@ == self@,
    {
        let r = AcceptedPolicies(self.0.clone());
        assert(r.0.deep_view() =~= self.0.deep_view());
        r
    }
}

/// Whether the policies of an operation have been applied.
#[derive(Clone, Copy, Debug, PartialEq, Eq, Structural)]
pub enum PolicyProgress {
    /// Still to be applied.
    Pending,
    /// Applied.
    Accepted,
}

impl View for PolicyProgress {
    type V = Self;

    open spec fn view(&self) -> Self {
        *self
    }
}

impl DeepView for PolicyProgress {
    type V = Self;

    open spec fn deep_view(&self) -> Self {
        self.view()
    }
}

} // verus!
