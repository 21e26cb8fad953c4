//! Texts of errors.

use vstd::prelude::*;
use vstd::string::*;

use crate::debug::RunDebugError;
use crate::debug_form::{entity_debug, entity_form};
use crate::effect::{CanonicalError, CanonicalErrorView};
use crate::extension::{ExtensionEffectLifecycleError, ExtensionEffectLifecycleErrorView};
use crate::identity::IdentityError;
use crate::policy::{ExtensionInstallError, ExtensionInstallErrorView};
use crate::report::{LocalAgentError, LocalAgentErrorView, PromptError, PromptErrorView};
use crate::run::{
    DriveError, EffectIoError, InstallError, PersistenceError, PersistenceErrorView,
    RuntimeInvariantError, RuntimeInvariantErrorView, SpawnError, SpawnErrorView,
    StreamReceiveError, SubmitError, SubmitErrorView,
};
use crate::text::{decimal, decimal_text};

verus! {

/// A text between two others.
fn between(before: &str, text: &str, after: &str) -> (r: String)
    ensures
        r@ == before@ + text@ + after@,
{
    let mut r = before.to_owned();
    r.append(text);
    r.append(after);
    r
}

/// A text after another.
fn following(before: &str, text: &str) -> (r: String)
    ensures
        r@ == before@ + text@,
{
    let mut r = before.to_owned();
    r.append(text);
    r
}

/// Text of an identity error.
pub open spec fn identity_error_text(error: IdentityError) -> Seq<char> {
    match error {
        IdentityError::Empty => "identity must not be empty"@,
    }
}

impl IdentityError {
    /// Text of the error.
    pub fn text(&self) -> (r: String)
        ensures
            r@ == identity_error_text(*self),
    {
        match self {
            IdentityError::Empty => "identity must not be empty".to_owned(),
        }
    }
}

/// Text of a canonical error.
pub open spec fn canonical_error_text(error: CanonicalErrorView) -> Seq<char> {
    match error {
        CanonicalErrorView::StaleEntity(what) => "stale entity reference: "@ + what,
        CanonicalErrorView::TenantMismatch => "tenant scope mismatch"@,
        CanonicalErrorView::RetiredCapability => "capability is retired"@,
        CanonicalErrorView::ExecutorDisconnected => "effect executor disconnected"@,
        CanonicalErrorView::Timeout => "external effect timed out"@,
        CanonicalErrorView::ExecutorPanicked(reason) => "external effect task panicked: "@ + reason,
        CanonicalErrorView::UnsupportedModelContent(what) => "unsupported model content: "@ + what,
        CanonicalErrorView::InvalidStructuredOutput(reason) => "structured output was invalid: "@
            + reason,
        CanonicalErrorView::ModelCallBudget { limit } => "model-call budget exhausted after "@
            + decimal_text(limit as nat) + " calls"@,
        CanonicalErrorView::Provider { message, .. } => "provider failure: "@ + message,
        CanonicalErrorView::Tool { message, .. } => "tool failure: "@ + message,
        CanonicalErrorView::Store { message, .. } => "store failure: "@ + message,
        CanonicalErrorView::Discovery { message, .. } => "discovery failure: "@ + message,
        CanonicalErrorView::PolicyDenied { policy } => "policy `"@ + policy
            + "` denied the operation"@,
        CanonicalErrorView::UnknownTool(name) => "unknown or unavailable tool `"@ + name + "`"@,
        CanonicalErrorView::DuplicateToolCall(id) => "duplicate tool call id `"@ + id + "`"@,
        CanonicalErrorView::EffectKindMismatch =>
            "effect completion kind did not match operation kind"@,
        CanonicalErrorView::InvalidDiscovery(reason) => "invalid discovery payload: "@ + reason,
    }
}

impl CanonicalError {
    /// Text of the error.
    pub fn text(&self) -> (r: String)
        ensures
            r@ == canonical_error_text(self@),
    {
        match self {
            CanonicalError::StaleEntity(what) => following(
                "stale entity reference: ",
                what.as_str(),
            ),
            CanonicalError::TenantMismatch => "tenant scope mismatch".to_owned(),
            CanonicalError::RetiredCapability => "capability is retired".to_owned(),
            CanonicalError::ExecutorDisconnected => "effect executor disconnected".to_owned(),
            CanonicalError::Timeout => "external effect timed out".to_owned(),
            CanonicalError::ExecutorPanicked(reason) => following(
                "external effect task panicked: ",
                reason.as_str(),
            ),
            CanonicalError::UnsupportedModelContent(what) => following(
                "unsupported model content: ",
                what.as_str(),
            ),
            CanonicalError::InvalidStructuredOutput(reason) => following(
                "structured output was invalid: ",
                reason.as_str(),
            ),
            CanonicalError::ModelCallBudget { limit } => {
                let number = decimal(*limit as u64);
                between("model-call budget exhausted after ", number.as_str(), " calls")
            },
            CanonicalError::Provider { message, .. } => following(
                "provider failure: ",
                message.as_str(),
            ),
            CanonicalError::Tool { message, .. } => following("tool failure: ", message.as_str()),
            CanonicalError::Store { message, .. } => following("store failure: ", message.as_str()),
            CanonicalError::Discovery { message, .. } => following(
                "discovery failure: ",
                message.as_str(),
            ),
            CanonicalError::PolicyDenied { policy } => between(
                "policy `",
                policy.as_str(),
                "` denied the operation",
            ),
            CanonicalError::UnknownTool(name) => between(
                "unknown or unavailable tool `",
                name.as_str(),
                "`",
            ),
            CanonicalError::DuplicateToolCall(id) => between(
                "duplicate tool call id `",
                id.as_str(),
                "`",
            ),
            CanonicalError::EffectKindMismatch =>
                "effect completion kind did not match operation kind".to_owned(),
            CanonicalError::InvalidDiscovery(reason) => following(
                "invalid discovery payload: ",
                reason.as_str(),
            ),
        }
    }
}

/// Text of a command error.
pub open spec fn submit_error_text(error: SubmitErrorView) -> Seq<char> {
    match error {
        SubmitErrorView::ForeignRuntime => "handle belongs to a different runtime"@,
        SubmitErrorView::Backpressure => "runtime command queue is full"@,
        SubmitErrorView::Disconnected => "runtime command queue is disconnected"@,
        SubmitErrorView::InvalidIdentity(error) => identity_error_text(error),
        SubmitErrorView::InvalidPrompt(reason) => "invalid prompt message: "@ + reason,
    }
}

impl SubmitError {
    /// Text of the error.
    pub fn text(&self) -> (r: String)
        ensures
            r@ == submit_error_text(self@),
    {
        match self {
            SubmitError::ForeignRuntime => "handle belongs to a different runtime".to_owned(),
            SubmitError::Backpressure => "runtime command queue is full".to_owned(),
            SubmitError::Disconnected => "runtime command queue is disconnected".to_owned(),
            SubmitError::InvalidIdentity(error) => error.text(),
            SubmitError::InvalidPrompt(reason) => following(
                "invalid prompt message: ",
                reason.as_str(),
            ),
        }
    }
}

/// Text of a construction error.
pub open spec fn spawn_error_text(error: SpawnErrorView) -> Seq<char> {
    match error {
        SpawnErrorView::DuplicateStableId(id) => "stable id `"@ + id + "` already exists"@,
        SpawnErrorView::StaleEntity(entity) => "stale entity "@ + decimal_text(entity.0 as nat),
        SpawnErrorView::TenantMismatch => "tenant scope mismatch"@,
        SpawnErrorView::ForeignRuntime => "handle belongs to a different runtime"@,
    }
}

impl SpawnError {
    /// Text of the error.
    pub fn text(&self) -> (r: String)
        ensures
            r@ == spawn_error_text(self@),
    {
        match self {
            SpawnError::DuplicateStableId(id) => between(
                "stable id `",
                id.as_str(),
                "` already exists",
            ),
            SpawnError::StaleEntity(entity) => {
                let number = decimal(entity.0);
                following("stale entity ", number.as_str())
            },
            SpawnError::TenantMismatch => "tenant scope mismatch".to_owned(),
            SpawnError::ForeignRuntime => "handle belongs to a different runtime".to_owned(),
        }
    }
}

/// Text of a persistence error.
pub open spec fn persistence_error_text(error: PersistenceErrorView) -> Seq<char> {
    match error {
        PersistenceErrorView::ConflictingStableId(id) => "conflicting stable id `"@ + id + "`"@,
        PersistenceErrorView::MissingReference(id) => "missing stable reference `"@ + id + "`"@,
        PersistenceErrorView::TenantMismatch(id) => "tenant mismatch for stable reference `"@ + id
            + "`"@,
        PersistenceErrorView::StaleRelationship(entity) =>
            "stale runtime relationship on entity "@ + decimal_text(entity.0 as nat),
    }
}

impl PersistenceError {
    /// Text of the error.
    pub fn text(&self) -> (r: String)
        ensures
            r@ == persistence_error_text(self@),
    {
        match self {
            PersistenceError::ConflictingStableId(id) => between(
                "conflicting stable id `",
                id.as_str(),
                "`",
            ),
            PersistenceError::MissingReference(id) => between(
                "missing stable reference `",
                id.as_str(),
                "`",
            ),
            PersistenceError::TenantMismatch(id) => between(
                "tenant mismatch for stable reference `",
                id.as_str(),
                "`",
            ),
            PersistenceError::StaleRelationship(entity) => {
                let number = decimal(entity.0);
                following("stale runtime relationship on entity ", number.as_str())
            },
        }
    }
}

/// Text of a driver error.
pub open spec fn drive_error_text(error: DriveError) -> Seq<char> {
    match error {
        DriveError::ProgressLimit(limit) => "runtime exceeded the progress limit of "@
            + decimal_text(limit as nat) + " schedule passes"@,
    }
}

impl DriveError {
    /// Text of the error.
    pub fn text(&self) -> (r: String)
        ensures
            r@ == drive_error_text(*self),
    {
        match self {
            DriveError::ProgressLimit(limit) => {
                let number = decimal(*limit as u64);
                between("runtime exceeded the progress limit of ", number.as_str(), " schedule passes")
            },
        }
    }
}

/// Text of an installation error.
pub open spec fn install_error_text(error: InstallError) -> Seq<char> {
    match error {
        InstallError::AlreadyInstalled => "Rig runtime is already installed in this world"@,
        InstallError::InvalidCapacity => "runtime capacities and progress limit must be non-zero"@,
    }
}

impl InstallError {
    /// Text of the error.
    pub fn text(&self) -> (r: String)
        ensures
            r@ == install_error_text(*self),
    {
        match self {
            InstallError::AlreadyInstalled =>
                "Rig runtime is already installed in this world".to_owned(),
            InstallError::InvalidCapacity =>
                "runtime capacities and progress limit must be non-zero".to_owned(),
        }
    }
}

/// Text of an effect-boundary error.
pub open spec fn effect_error_text(error: EffectIoError) -> Seq<char> {
    match error {
        EffectIoError::Backpressure => "effect queue is full"@,
        EffectIoError::Disconnected => "effect queue is disconnected"@,
        EffectIoError::Poisoned => "effect queue lock is poisoned"@,
    }
}

impl EffectIoError {
    /// Text of the error.
    pub fn text(&self) -> (r: String)
        ensures
            r@ == effect_error_text(*self),
    {
        match self {
            EffectIoError::Backpressure => "effect queue is full".to_owned(),
            EffectIoError::Disconnected => "effect queue is disconnected".to_owned(),
            EffectIoError::Poisoned => "effect queue lock is poisoned".to_owned(),
        }
    }
}

/// Text of a stream error.
pub open spec fn stream_error_text(error: StreamReceiveError) -> Seq<char> {
    match error {
        StreamReceiveError::Disconnected => "stream subscription disconnected"@,
    }
}

impl StreamReceiveError {
    /// Text of the error.
    pub fn text(&self) -> (r: String)
        ensures
            r@ == stream_error_text(*self),
    {
        match self {
            StreamReceiveError::Disconnected => "stream subscription disconnected".to_owned(),
        }
    }
}

/// Text of an error of a local agent.
pub open spec fn local_error_text(error: LocalAgentErrorView) -> Seq<char> {
    match error {
        LocalAgentErrorView::Install(error) => install_error_text(error),
        LocalAgentErrorView::Spawn(error) => spawn_error_text(error),
        LocalAgentErrorView::Submit(error) => submit_error_text(error),
        LocalAgentErrorView::Drive(error) => drive_error_text(error),
        LocalAgentErrorView::Effect(error) => effect_error_text(error),
        LocalAgentErrorView::Stream(error) => stream_error_text(error),
        LocalAgentErrorView::Identity(error) => identity_error_text(error),
        LocalAgentErrorView::Canonical(error) => canonical_error_text(error),
        LocalAgentErrorView::Cancelled => "run was cancelled"@,
        LocalAgentErrorView::RuntimePoisoned => "local ECS runtime lock was poisoned"@,
    }
}

impl LocalAgentError {
    /// Text of the error.
    pub fn text(&self) -> (r: String)
        ensures
            r@ == local_error_text(self@),
    {
        match self {
            LocalAgentError::Install(error) => error.text(),
            LocalAgentError::Spawn(error) => error.text(),
            LocalAgentError::Submit(error) => error.text(),
            LocalAgentError::Drive(error) => error.text(),
            LocalAgentError::Effect(error) => error.text(),
            LocalAgentError::Stream(error) => error.text(),
            LocalAgentError::Identity(error) => error.text(),
            LocalAgentError::Canonical(error) => error.text(),
            LocalAgentError::Cancelled => "run was cancelled".to_owned(),
            LocalAgentError::RuntimePoisoned => "local ECS runtime lock was poisoned".to_owned(),
        }
    }
}

/// Text of an extension effect error.
pub open spec fn lifecycle_error_text(error: ExtensionEffectLifecycleErrorView) -> Seq<char> {
    match error {
        ExtensionEffectLifecycleErrorView::RuntimeNotInstalled =>
            "target world has no installed runtime"@,
        ExtensionEffectLifecycleErrorView::NotRun =>
            "extension effect owner is not a runtime run"@,
        ExtensionEffectLifecycleErrorView::DuplicateStableId(id) => "stable id `"@ + id
            + "` already exists"@,
        ExtensionEffectLifecycleErrorView::WrongKind(kind) =>
            "operation is not extension effect kind `"@ + kind + "`"@,
        ExtensionEffectLifecycleErrorView::InvalidPhase =>
            "invalid extension effect phase transition"@,
        ExtensionEffectLifecycleErrorView::StaleGeneration { expected, received } =>
            "stale extension effect generation: expected "@ + decimal_text(expected as nat)
            + ", received "@ + decimal_text(received as nat),
    }
}

impl ExtensionEffectLifecycleError {
    /// Text of the error.
    pub fn text(&self) -> (r: String)
        ensures
            r@ == lifecycle_error_text(self@),
    {
        match self {
            ExtensionEffectLifecycleError::RuntimeNotInstalled =>
                "target world has no installed runtime".to_owned(),
            ExtensionEffectLifecycleError::NotRun =>
                "extension effect owner is not a runtime run".to_owned(),
            ExtensionEffectLifecycleError::DuplicateStableId(id) => between(
                "stable id `",
                id.as_str(),
                "` already exists",
            ),
            ExtensionEffectLifecycleError::WrongKind(kind) => between(
                "operation is not extension effect kind `",
                kind.as_str(),
                "`",
            ),
            ExtensionEffectLifecycleError::InvalidPhase =>
                "invalid extension effect phase transition".to_owned(),
            ExtensionEffectLifecycleError::StaleGeneration { expected, received } => {
                let wanted = decimal(*expected);
                let got = decimal(*received);
                let mut r = between(
                    "stale extension effect generation: expected ",
                    wanted.as_str(),
                    ", received ",
                );
                r.append(got.as_str());
                r
            },
        }
    }
}

/// Text of an invariant violation.
pub open spec fn invariant_error_text(error: RuntimeInvariantErrorView) -> Seq<char> {
    match error {
        RuntimeInvariantErrorView::DuplicateStableId(id) => "duplicate stable id `"@ + id + "`"@,
        RuntimeInvariantErrorView::InvalidRelationship { entity, relationship, target } =>
            relationship + " on "@ + entity_debug(entity) + " points at invalid target "@
            + entity_debug(target),
        RuntimeInvariantErrorView::RelationshipTenantMismatch { entity, relationship } =>
            relationship + " on "@ + entity_debug(entity) + " crosses tenant scope"@,
    }
}

impl RuntimeInvariantError {
    /// Text of the error.
    pub fn text(&self) -> (r: String)
        ensures
            r@ == invariant_error_text(self@),
    {
        match self {
            RuntimeInvariantError::DuplicateStableId(id) => between(
                "duplicate stable id `",
                id.as_str(),
                "`",
            ),
            RuntimeInvariantError::InvalidRelationship { entity, relationship, target } => {
                let holder = entity_form(*entity);
                let pointee = entity_form(*target);
                let mut r = between(relationship, " on ", holder.as_str());
                r.append(" points at invalid target ");
                r.append(pointee.as_str());
                r
            },
            RuntimeInvariantError::RelationshipTenantMismatch { entity, relationship } => {
                let holder = entity_form(*entity);
                let mut r = between(relationship, " on ", holder.as_str());
                r.append(" crosses tenant scope");
                r
            },
        }
    }
}

/// Text of an extension installation error.
pub open spec fn extension_error_text(error: ExtensionInstallErrorView) -> Seq<char> {
    match error {
        ExtensionInstallErrorView::RuntimeNotInstalled =>
            "Rig runtime is not installed in this world"@,
        ExtensionInstallErrorView::DuplicateStableId(id) => "duplicate stable id `"@ + id + "`"@,
        ExtensionInstallErrorView::StaleAgent(agent) => "policy target "@ + entity_debug(agent)
            + " is not a live agent"@,
        ExtensionInstallErrorView::TenantMismatch => "policy and target agent cross tenant scope"@,
    }
}

impl ExtensionInstallError {
    /// Text of the error.
    pub fn text(&self) -> (r: String)
        ensures
            r@ == extension_error_text(self@),
    {
        match self {
            ExtensionInstallError::RuntimeNotInstalled =>
                "Rig runtime is not installed in this world".to_owned(),
            ExtensionInstallError::DuplicateStableId(id) => between(
                "duplicate stable id `",
                id.as_str(),
                "`",
            ),
            ExtensionInstallError::StaleAgent(agent) => {
                let target = entity_form(*agent);
                between("policy target ", target.as_str(), " is not a live agent")
            },
            ExtensionInstallError::TenantMismatch =>
                "policy and target agent cross tenant scope".to_owned(),
        }
    }
}

/// Text of an inspection error.
pub open spec fn debug_error_text(error: RunDebugError) -> Seq<char> {
    match error {
        RunDebugError::ForeignRuntime => "run handle belongs to another runtime"@,
        RunDebugError::StaleRun => "run is stale"@,
        RunDebugError::StaleOperation => "operation is stale"@,
    }
}

impl RunDebugError {
    /// Text of the error.
    pub fn text(&self) -> (r: String)
        ensures
            r@ == debug_error_text(*self),
    {
        match self {
            RunDebugError::ForeignRuntime => "run handle belongs to another runtime".to_owned(),
            RunDebugError::StaleRun => "run is stale".to_owned(),
            RunDebugError::StaleOperation => "operation is stale".to_owned(),
        }
    }
}

/// The error of a prompt for an error of the local agent.
pub open spec fn prompt_error_of(error: LocalAgentErrorView) -> PromptErrorView {
    match error {
        LocalAgentErrorView::Canonical(CanonicalErrorView::UnknownTool(tool_name)) =>
            PromptErrorView::UnknownToolCall { tool_name },
        LocalAgentErrorView::Canonical(CanonicalErrorView::ModelCallBudget { limit }) =>
            PromptErrorView::MaxTurns { max_turns: limit as usize },
        LocalAgentErrorView::Cancelled => PromptErrorView::PromptCancelled {
            reason: local_error_text(error),
        },
        _ => PromptErrorView::Provider(local_error_text(error)),
    }
}

/// Turns an error of the local agent into the error of a prompt.
pub fn local_prompt_error(error: LocalAgentError) -> (r: PromptError)
    ensures
        r@ == prompt_error_of(error@),
{
    let message = error.text();
    match error {
        LocalAgentError::Canonical(CanonicalError::UnknownTool(tool_name)) =>
            PromptError::UnknownToolCall { tool_name },
        LocalAgentError::Canonical(CanonicalError::ModelCallBudget { limit }) =>
            PromptError::MaxTurns { max_turns: limit as usize },
        LocalAgentError::Cancelled => PromptError::PromptCancelled { reason: message },
        _ => PromptError::Provider(message),
    }
}

} // verus!
