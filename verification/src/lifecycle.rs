//! Typed policies, their decisions and lifecycle notifications.

use vstd::prelude::*;

use crate::capability::{PolicyPoint, RequestPatch};
use crate::column::Entity;
use crate::effect::ToolErrorKind;
use crate::report::ToolCallDeltaContent;

verus! {

/// Relationship from one explicit steering-responder binding to its policy.
#[derive(Clone, Copy, Debug, Eq, PartialEq)]
pub struct PolicyResponderFor(pub Entity);

/// Explicit steering-responder bindings owned by a policy entity.
#[derive(Debug)]
pub struct PolicyResponders(pub Vec<Entity>);

/// Lifecycle point handled by a responder binding entity.
#[derive(Clone, Copy, Debug, Eq, PartialEq)]
pub struct ResponderPoint(pub PolicyPoint);

/// Unconditional request progression.
#[derive(Clone, Copy, Debug, Eq, PartialEq)]
pub struct AllowRequestPolicy;

/// Request denial based on canonical prompt text.
#[derive(Debug, Eq, PartialEq)]
pub struct DenyPromptContainsPolicy(pub String);

/// Operation-local request patch contribution.
#[derive(Debug, Eq, PartialEq)]
pub struct RequestPatchPolicy(pub RequestPatch);

/// Typed tool-argument rewrite policy.
#[derive(Debug, Eq, PartialEq)]
pub struct RewriteToolArgumentsPolicy {
    /// Optional tool name; `None` applies to every call.
    pub tool: Option<String>,
    /// Replacement arguments.
    pub arguments: serde_json::Value,
}

/// Typed tool-call skip policy.
#[derive(Debug, Eq, PartialEq)]
pub struct SkipToolCallPolicy {
    /// Optional tool name; `None` applies to every call.
    pub tool: Option<String>,
    /// Model-visible feedback.
    pub reason: String,
}

/// Typed invalid-tool repair policy.
#[derive(Debug, Eq, PartialEq)]
pub struct RepairInvalidToolPolicy {
    /// Optional emitted name; `None` applies to every invalid call.
    pub from: Option<String>,
    /// Replacement advertised tool name.
    pub to: String,
}

/// Typed invalid-tool retry policy.
#[derive(Debug, Eq, PartialEq)]
pub struct RetryInvalidToolPolicy {
    /// Optional emitted name; `None` applies to every invalid call.
    pub tool: Option<String>,
    /// Corrective model feedback.
    pub feedback: String,
}

/// Typed invalid-tool skip policy.
#[derive(Debug, Eq, PartialEq)]
pub struct SkipInvalidToolPolicy {
    /// Optional emitted name; `None` applies to every invalid call.
    pub tool: Option<String>,
    /// Model-visible feedback.
    pub reason: String,
}

/// Typed tool-result presentation rewrite policy.
#[derive(Debug, Eq, PartialEq)]
pub struct RewriteToolResultPolicy {
    /// Optional tool name; `None` applies to every result.
    pub tool: Option<String>,
    /// Replacement typed presentation.
    pub presentation: serde_json::Value,
}

/// Typed tool-result stop policy.
#[derive(Debug, Eq, PartialEq)]
pub struct StopToolResultPolicy {
    /// Optional tool name; `None` applies to every result.
    pub tool: Option<String>,
    /// Audit reason.
    pub reason: String,
}

/// Typed completion-text rewrite policy.
#[derive(Debug, Eq, PartialEq)]
pub struct RewriteCompletionTextPolicy(pub String);

/// Typed completion-response stop policy.
#[derive(Debug, Eq, PartialEq)]
pub struct StopCompletionContainsPolicy {
    /// Text matched against normalized completion output.
    pub needle: String,
    /// Audit reason.
    pub reason: String,
}

/// Typed streaming text-delta stop policy.
#[derive(Debug, Eq, PartialEq)]
pub struct StopTextDeltaContainsPolicy {
    /// Text matched against the new delta.
    pub needle: String,
    /// Audit reason.
    pub reason: String,
}

/// Typed streaming tool-call-delta stop policy.
#[derive(Debug, Eq, PartialEq)]
pub struct StopToolCallDeltaContainsPolicy {
    /// Text matched against a name or argument fragment.
    pub needle: String,
    /// Audit reason.
    pub reason: String,
}

/// Typed asynchronous approval policy.
#[derive(Debug, Eq, PartialEq)]
pub struct RequireApprovalPolicy {
    /// Lifecycle point awaiting approval.
    pub point: PolicyPoint,
    /// Approver-facing prompt.
    pub prompt: String,
}

/// Marks a lifecycle point whose steering responder is extension-owned.
#[derive(Clone, Copy, Debug, Eq, PartialEq)]
pub struct CustomPolicy(pub PolicyPoint);

/// Relationship from a durable policy evaluation to its operation.
#[derive(Clone, Copy, Debug, Eq, PartialEq)]
pub struct EvaluationOfOperation(pub Entity);

/// Policy evaluations retained by an operation for audit and resumption.
#[derive(Debug)]
pub struct OperationPolicyEvaluations(pub Vec<Entity>);

/// Relationship from an asynchronous approval operation to its evaluation.
#[derive(Clone, Copy, Debug, Eq, PartialEq)]
pub struct ApprovalForEvaluation(pub Entity);

/// Approval operations retained by a durable policy evaluation.
#[derive(Debug)]
pub struct EvaluationApprovalOperations(pub Vec<Entity>);

/// Typed resolution for a model-emitted call outside its tool snapshot.
#[derive(Debug, Eq, PartialEq)]
pub enum InvalidToolCallPolicyDecision {
    /// This policy does not resolve the call; continue ordered evaluation.
    Continue,
    /// Preserve fail-fast behavior.
    Fail,
    /// Return corrective feedback and retry the model.
    Retry(String),
    /// Replace the emitted name with a snapshotted tool name.
    Repair(String),
    /// Return synthetic feedback without executing a tool.
    Skip(String),
    /// Stop the complete run.
    Stop(String),
    /// Suspend evaluation on an external approval operation.
    AwaitApproval(String),
}

/// Typed result returned by a tool-result policy observer.
#[derive(Debug, Eq, PartialEq)]
pub enum ToolResultPolicyDecision {
    /// Preserve the current effective presentation.
    Keep,
    /// Replace only the model-visible presentation.
    Rewrite(serde_json::Value),
    /// Stop the run without publishing raw result content.
    Stop(String),
    /// Suspend evaluation on an external approval operation.
    AwaitApproval(String),
}

/// Typed result returned by a completion-response policy observer.
#[derive(Debug, Eq, PartialEq)]
pub enum CompletionResponsePolicyDecision {
    /// Accept the current normalized response.
    Continue,
    /// Replace normalized text before later policies and commit.
    RewriteText(String),
    /// Stop the run before committing the model turn.
    Stop(String),
    /// Suspend evaluation on an external approval operation.
    AwaitApproval(String),
}

/// Observe-only notification for a validated text delta.
#[derive(Debug)]
pub struct TextDeltaObserved {
    /// Producing model operation.
    pub operation: Entity,
    /// Owning run.
    pub run: Entity,
    /// Committed model-call position at ingress.
    pub turn: u32,
    /// Explicit operation-local sequence.
    pub sequence: u64,
    /// Provider correlation, when supplied.
    pub provider_correlation: Option<String>,
    /// Newly validated text.
    pub delta: String,
    /// Canonical aggregate including this delta.
    pub aggregated: String,
}

/// Observe-only notification for a validated tool-call fragment.
#[derive(Debug)]
pub struct ToolCallDeltaObserved {
    /// Producing model operation.
    pub operation: Entity,
    /// Owning run.
    pub run: Entity,
    /// Committed model-call position at ingress.
    pub turn: u32,
    /// Explicit operation-local sequence.
    pub sequence: u64,
    /// Provider correlation, when supplied.
    pub provider_correlation: Option<String>,
    /// Provider-facing tool-call ID.
    pub id: String,
    /// Rig correlation ID retained through invalid-call recovery.
    pub internal_call_id: String,
    /// Tool name or argument fragment.
    pub content: ToolCallDeltaContent,
}

/// Observe-only notification after a model effect enters the outbox.
#[derive(Debug)]
pub struct ModelDispatched {
    /// Model operation.
    pub operation: Entity,
    /// Owning run.
    pub run: Entity,
    /// Exact operation generation.
    pub generation: u64,
}

/// Observe-only notification after a real tool effect enters the outbox.
#[derive(Debug)]
pub struct ToolExecutionStarted {
    /// Tool operation.
    pub operation: Entity,
    /// Owning run.
    pub run: Entity,
    /// Exact operation generation.
    pub generation: u64,
    /// Logical batch position.
    pub index: u32,
}

/// Observe-only notification after a real tool effect completion is validated.
#[derive(Debug)]
pub struct ToolExecutionSettled {
    /// Tool operation.
    pub operation: Entity,
    /// Owning run.
    pub run: Entity,
    /// Exact operation generation.
    pub generation: u64,
    /// Content-free execution status safe for telemetry before result policy.
    pub status: ToolExecutionStatus,
}

/// Content-free tool settlement metadata safe for telemetry publication.
///
/// The immutable output remains on the operation for explicitly
/// authorized audit and policy queries. Keeping it out of observation events
/// prevents stopped or redacted results from being copied into telemetry sinks.
#[derive(Clone, Copy, Debug, Eq, PartialEq)]
pub struct ToolExecutionStatus {
    /// Whether the tool returned without any execution failure metadata.
    pub succeeded: bool,
    /// Stable error classification, when one is available.
    pub failure_kind: Option<ToolErrorKind>,
    /// Retry classification without an operator-facing diagnostic string.
    pub retryable: Option<bool>,
    /// Whether the tool intentionally refused the call.
    pub refusal: bool,
}

/// Observe-only notification after tool-result presentation policy finalizes.
#[derive(Debug)]
pub struct ToolResultPresentationFinalized {
    /// Tool operation.
    pub operation: Entity,
    /// Owning run.
    pub run: Entity,
    /// Content-free execution status retained alongside the presentation.
    pub status: ToolExecutionStatus,
    /// Final policy-approved model and telemetry presentation.
    pub presentation: String,
}

/// Policy-approved tool result safe to copy into lifecycle telemetry.
///
/// Raw result content and operator-facing failure messages remain immutable
/// operation audit state and are intentionally absent from this value.
#[derive(Debug, Eq, PartialEq)]
pub struct PublishedToolResult {
    /// Provider correlation identifier copied from the call.
    pub call_id: String,
    /// Provider-facing result identifier.
    pub provider_result_id: String,
    /// Separate provider call identifier, when present.
    pub provider_call_id: Option<String>,
    /// Provider-facing tool name.
    pub name: String,
    /// Final policy-approved presentation.
    pub presentation: String,
    /// Content-free execution status.
    pub status: ToolExecutionStatus,
}

/// Observe-only notification after an atomic tool batch commits successfully.
#[derive(Debug)]
pub struct ToolBatchCommitted {
    /// Tool-batch entity.
    pub batch: Entity,
    /// Owning run.
    pub run: Entity,
    /// Policy-approved, content-safe results in logical call order.
    pub results: Vec<PublishedToolResult>,
}

/// Observe-only terminal cancellation notification.
#[derive(Clone, Copy, Debug)]
pub struct RunCancelled {
    /// Terminal run.
    pub run: Entity,
}

/// Typed steering result for a streaming text delta.
#[derive(Debug, Eq, PartialEq)]
pub enum TextDeltaPolicyDecision {
    /// Publish the accepted delta.
    Continue,
    /// Stop the run before publishing this delta.
    Stop(String),
    /// Suspend evaluation on an external approval operation.
    AwaitApproval(String),
}

/// Typed input for one accepted, not-yet-published text delta.
#[derive(Debug)]
pub struct TextDeltaPolicyInvocation {
    /// Policy entity selected by the core evaluator.
    pub policy: Entity,
    /// Durable delta evaluation identity.
    pub evaluation: Entity,
    /// Run receiving the stream.
    pub run: Entity,
    /// Model operation producing the stream.
    pub operation: Entity,
    /// Committed model-call index at ingress time.
    pub turn: u32,
    /// Monotonic operation-local sequence.
    pub sequence: u64,
    /// Newly accepted text.
    pub delta: String,
    /// Authoritative aggregate including this delta.
    pub aggregated: String,
}

/// Typed steering result for a streamed tool-call delta.
#[derive(Debug, Eq, PartialEq)]
pub enum ToolCallDeltaPolicyDecision {
    /// Publish the accepted delta.
    Continue,
    /// Stop the run before publishing this delta.
    Stop(String),
    /// Suspend evaluation on an external approval operation.
    AwaitApproval(String),
}

/// Typed input for one accepted tool-call delta.
#[derive(Debug)]
pub struct ToolCallDeltaPolicyInvocation {
    /// Policy entity selected by the evaluator.
    pub policy: Entity,
    /// Durable delta evaluation identity.
    pub evaluation: Entity,
    /// Run receiving the stream.
    pub run: Entity,
    /// Model operation producing the stream.
    pub operation: Entity,
    /// Committed model-call index at ingress time.
    pub turn: u32,
    /// Monotonic operation-local sequence.
    pub sequence: u64,
    /// Provider correlation retained for audit and policy.
    pub provider_correlation: Option<String>,
    /// Provider-facing tool-call identifier.
    pub id: String,
    /// Rig correlation identifier.
    pub internal_call_id: String,
    /// Tool name or argument fragment.
    pub content: ToolCallDeltaContent,
}

/// Canonical high-volume streaming delta content.
#[derive(Debug, Eq, PartialEq)]
pub enum EffectDeltaKind {
    /// Incremental assistant text.
    Text(String),
    /// Incremental tool name or JSON arguments.
    ToolCall {
        /// Provider-facing tool-call ID.
        id: String,
        /// Rig correlation ID preserved through repair and execution.
        internal_call_id: String,
        /// Tool name or argument fragment.
        content: ToolCallDeltaContent,
    },
}

/// Provider-independent approval result.
#[derive(Debug, Eq, PartialEq)]
pub struct PolicyApprovalEffectOutput {
    /// Whether progression is approved.
    pub approved: bool,
    /// Optional audit explanation.
    pub reason: Option<String>,
}

/// Concrete provider response retained on a model operation.
#[derive(Debug)]
pub struct TypedProviderResponseDiagnostics<T>(pub T);

} // verus!
