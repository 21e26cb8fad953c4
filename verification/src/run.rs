//! Runs, subscriptions, handles and their errors.

use vstd::prelude::*;

use crate::capability::{RetrievedDocument, RetrievedDocumentView};
use crate::column::Entity;
use crate::effect::{
    CanonicalError, CanonicalErrorView, ModelEffectOutput, ModelEffectOutputView, RunOutput,
    RunOutputView, StoreDecision, StoreDecisionView, TranscriptEntry, TranscriptEntryView, Usage,
};
use crate::identity::{IdentityError, StableId};

verus! {

/// Mutually exclusive discovery source state.
#[derive(Debug, PartialEq, Eq)]
pub enum DiscoveryState {
    /// Ready to accept a refresh request.
    Idle,
    /// Waiting for this generation-correlated operation.
    Refreshing {
        operation: Entity,
    },
    /// Source is unavailable and publishes no new capabilities.
    Disconnected,
    /// Most recent refresh failed; a later refresh may retry.
    Failed(CanonicalError),
}

/// What a [`DiscoveryState`] holds.
#[verifier::ext_equal]
pub enum DiscoveryStateView {
    Idle,
    Refreshing { operation: Entity },
    Disconnected,
    Failed(CanonicalErrorView),
}

impl View for DiscoveryState {
    type V = DiscoveryStateView;

    open spec fn view(&self) -> DiscoveryStateView {
        match self {
            DiscoveryState::Idle => DiscoveryStateView::Idle,
            DiscoveryState::Refreshing { operation } => DiscoveryStateView::Refreshing {
                operation: *operation,
            },
            DiscoveryState::Disconnected => DiscoveryStateView::Disconnected,
            DiscoveryState::Failed(x) => DiscoveryStateView::Failed(x@),
        }
    }
}

impl DeepView for DiscoveryState {
    type V = DiscoveryStateView;

    open spec fn deep_view(&self) -> DiscoveryStateView {
        self.view()
    }
}

impl Clone for DiscoveryState {
    fn clone(&self) -> (r: Self)
        ensures
            r@ == self@,
    {
        match self {
            DiscoveryState::Idle => DiscoveryState::Idle,
            DiscoveryState::Refreshing { operation } => DiscoveryState::Refreshing {
                operation: *operation,
            },
            DiscoveryState::Disconnected => DiscoveryState::Disconnected,
            DiscoveryState::Failed(x) => DiscoveryState::Failed(x.clone()),
        }
    }
}

/// Dynamic discovery/MCP source lifecycle.
#[derive(Debug, PartialEq, Eq)]
pub struct DiscoverySource {
    /// Source kind used by external executors, such as `mcp`.
    pub kind: String,
    /// Monotonic refresh generation.
    pub generation: u64,
    /// Authoritative refresh/liveness state.
    pub state: DiscoveryState,
}

/// What a [`DiscoverySource`] holds.
#[verifier::ext_equal]
pub struct DiscoverySourceView {
    pub kind: Seq<char>,
    pub generation: u64,
    pub state: DiscoveryStateView,
}

impl View for DiscoverySource {
    type V = DiscoverySourceView;

    open spec fn view(&self) -> DiscoverySourceView {
        DiscoverySourceView {
            kind: self.kind@,
            generation: self.generation,
            state: self.state@,
        }
    }
}

impl DeepView for DiscoverySource {
    type V = DiscoverySourceView;

    open spec fn deep_view(&self) -> DiscoverySourceView {
        self.view()
    }
}

impl Clone for DiscoverySource {
    fn clone(&self) -> (r: Self)
        ensures
            r@ == self@,
    {
        DiscoverySource {
            kind: self.kind.clone(),
            generation: self.generation,
            state: self.state.clone(),
        }
    }
}

/// Authoritative run phase and outcome.
#[derive(Debug, PartialEq, Eq)]
pub enum RunState {
    /// Accepted but not prepared.
    Queued,
    /// Waiting for an external model operation.
    WaitingModel {
        operation: Entity,
    },
    /// Waiting for every operation in one logical tool batch.
    WaitingTools {
        batch: Entity,
    },
    /// Waiting for conversation-memory load or persistence.
    WaitingStore {
        operation: Entity,
    },
    /// Completed and retained for observation.
    Completed(RunOutput),
    /// Terminal failure.
    Failed(CanonicalError),
    /// Cancellation prevents further dispatch and commit.
    Cancelled,
}

/// What a [`RunState`] holds.
#[verifier::ext_equal]
pub enum RunStateView {
    Queued,
    WaitingModel { operation: Entity },
    WaitingTools { batch: Entity },
    WaitingStore { operation: Entity },
    Completed(RunOutputView),
    Failed(CanonicalErrorView),
    Cancelled,
}

impl View for RunState {
    type V = RunStateView;

    open spec fn view(&self) -> RunStateView {
        match self {
            RunState::Queued => RunStateView::Queued,
            RunState::WaitingModel { operation } => RunStateView::WaitingModel {
                operation: *operation,
            },
            RunState::WaitingTools { batch } => RunStateView::WaitingTools {
                batch: *batch,
            },
            RunState::WaitingStore { operation } => RunStateView::WaitingStore {
                operation: *operation,
            },
            RunState::Completed(x) => RunStateView::Completed(x@),
            RunState::Failed(x) => RunStateView::Failed(x@),
            RunState::Cancelled => RunStateView::Cancelled,
        }
    }
}

impl DeepView for RunState {
    type V = RunStateView;

    open spec fn deep_view(&self) -> RunStateView {
        self.view()
    }
}

impl Clone for RunState {
    fn clone(&self) -> (r: Self)
        ensures
            r@ == self@,
    {
        match self {
            RunState::Queued => RunState::Queued,
            RunState::WaitingModel { operation } => RunState::WaitingModel {
                operation: *operation,
            },
            RunState::WaitingTools { batch } => RunState::WaitingTools {
                batch: *batch,
            },
            RunState::WaitingStore { operation } => RunState::WaitingStore {
                operation: *operation,
            },
            RunState::Completed(x) => RunState::Completed(x.clone()),
            RunState::Failed(x) => RunState::Failed(x.clone()),
            RunState::Cancelled => RunState::Cancelled,
        }
    }
}

/// A run's authoritative input and committed transcript.
#[derive(Debug, PartialEq, Eq)]
pub struct RunRecord {
    /// Canonical serialized user message accepted for this run.
    pub prompt: serde_json::Value,
    /// First textual prompt part, where there is one, used only for retrieval and text policy matching.
    pub prompt_text: Option<String>,
    /// Optional per-run structured-output requirement.
    pub output_schema: Option<serde_json::Value>,
    /// Optional per-run model-call budget override.
    pub max_model_calls: Option<u32>,
    /// Deterministically committed entries.
    pub transcript: Vec<TranscriptEntry>,
    /// Whether the terminal result has been observed by its facade.
    pub observed: bool,
    /// Usage accumulated across every model operation in the run.
    pub usage: Usage,
    /// Explicit next committed model-turn position.
    pub next_turn: u32,
    /// Optional stable conversation identity.
    pub conversation: Option<StableId>,
    /// Prevents repeated memory resolution/load.
    pub memory_loaded: bool,
    /// Immutable store choice accepted for this run.
    pub memory_store: Option<StoreDecision>,
    /// Prevents repeated vector retrieval.
    pub retrieval_loaded: bool,
    /// Immutable vector-search store choice accepted for this run.
    pub retrieval_store: Option<StoreDecision>,
    /// Ordered documents returned by the accepted retrieval operation.
    pub retrieved_documents: Vec<RetrievedDocument>,
    /// Output retained while required persistence settles.
    pub pending_output: Option<RunOutput>,
}

/// What a [`RunRecord`] holds.
#[verifier::ext_equal]
pub struct RunRecordView {
    pub prompt: serde_json::Value,
    pub prompt_text: Option<Seq<char>>,
    pub output_schema: Option<serde_json::Value>,
    pub max_model_calls: Option<u32>,
    pub transcript: Seq<TranscriptEntryView>,
    pub observed: bool,
    pub usage: Usage,
    pub next_turn: u32,
    pub conversation: Option<Seq<char>>,
    pub memory_loaded: bool,
    pub memory_store: Option<StoreDecisionView>,
    pub retrieval_loaded: bool,
    pub retrieval_store: Option<StoreDecisionView>,
    pub retrieved_documents: Seq<RetrievedDocumentView>,
    pub pending_output: Option<RunOutputView>,
}

impl View for RunRecord {
    type V = RunRecordView;

    open spec fn view(&self) -> RunRecordView {
        RunRecordView {
            prompt: self.prompt,
            prompt_text: self.prompt_text.deep_view(),
            output_schema: self.output_schema,
            max_model_calls: self.max_model_calls,
            transcript: self.transcript.deep_view(),
            observed: self.observed,
            usage: self.usage,
            next_turn: self.next_turn,
            conversation: self.conversation.deep_view(),
            memory_loaded: self.memory_loaded,
            memory_store: self.memory_store.deep_view(),
            retrieval_loaded: self.retrieval_loaded,
            retrieval_store: self.retrieval_store.deep_view(),
            retrieved_documents: self.retrieved_documents.deep_view(),
            pending_output: self.pending_output.deep_view(),
        }
    }
}

impl DeepView for RunRecord {
    type V = RunRecordView;

    open spec fn deep_view(&self) -> RunRecordView {
        self.view()
    }
}

impl Clone for RunRecord {
    fn clone(&self) -> (r: Self)
        ensures
            r@ == self@,
    {
        let r = RunRecord {
            prompt: self.prompt.clone(),
            prompt_text: self.prompt_text.clone(),
            output_schema: self.output_schema.clone(),
            max_model_calls: self.max_model_calls,
            transcript: self.transcript.clone(),
            observed: self.observed,
            usage: self.usage,
            next_turn: self.next_turn,
            conversation: self.conversation.clone(),
            memory_loaded: self.memory_loaded,
            memory_store: self.memory_store.clone(),
            retrieval_loaded: self.retrieval_loaded,
            retrieval_store: self.retrieval_store.clone(),
            retrieved_documents: self.retrieved_documents.clone(),
            pending_output: self.pending_output.clone(),
        };
        assert(r.prompt_text.deep_view() =~= self.prompt_text.deep_view());
        assert(r.transcript.deep_view() =~= self.transcript.deep_view());
        assert(r.conversation.deep_view() =~= self.conversation.deep_view());
        assert(r.memory_store.deep_view() =~= self.memory_store.deep_view());
        assert(r.retrieval_store.deep_view() =~= self.retrieval_store.deep_view());
        assert(r.retrieved_documents.deep_view() =~= self.retrieved_documents.deep_view());
        assert(r.pending_output.deep_view() =~= self.pending_output.deep_view());
        r
    }
}

/// Authoritative state for an atomic logical tool batch.
#[derive(Clone, Copy, Debug, PartialEq, Eq, Structural)]
pub struct ToolBatchState {
    /// Model operation that produced this batch and owns its immutable snapshot.
    pub source_model_operation: Entity,
    /// Number of operations that must settle before commit.
    pub expected: u32,
    /// Prevents a settled batch from committing twice.
    pub committed: bool,
}

impl View for ToolBatchState {
    type V = Self;

    open spec fn view(&self) -> Self {
        *self
    }
}

impl DeepView for ToolBatchState {
    type V = Self;

    open spec fn deep_view(&self) -> Self {
        self.view()
    }
}

/// Ordered delta state owned by a model operation entity.
#[derive(Clone, Copy, Debug, PartialEq, Eq, Structural)]
pub struct ModelStreamState {
    /// Next accepted sequence; duplicates and gaps are rejected.
    pub next_sequence: u64,
}

impl View for ModelStreamState {
    type V = Self;

    open spec fn view(&self) -> Self {
        *self
    }
}

impl DeepView for ModelStreamState {
    type V = Self;

    open spec fn deep_view(&self) -> Self {
        self.view()
    }
}

/// A committed turn entity.
#[derive(Debug, PartialEq, Eq)]
pub struct CommittedTurn {
    /// Explicit order within the run.
    pub index: u32,
    /// Model output committed at this position.
    pub output: ModelEffectOutput,
}

/// What a [`CommittedTurn`] holds.
#[verifier::ext_equal]
pub struct CommittedTurnView {
    pub index: u32,
    pub output: ModelEffectOutputView,
}

impl View for CommittedTurn {
    type V = CommittedTurnView;

    open spec fn view(&self) -> CommittedTurnView {
        CommittedTurnView {
            index: self.index,
            output: self.output@,
        }
    }
}

impl DeepView for CommittedTurn {
    type V = CommittedTurnView;

    open spec fn deep_view(&self) -> CommittedTurnView {
        self.view()
    }
}

impl Clone for CommittedTurn {
    fn clone(&self) -> (r: Self)
        ensures
            r@ == self@,
    {
        CommittedTurn {
            index: self.index,
            output: self.output.clone(),
        }
    }
}

/// Authoritative subscription lifecycle.
#[derive(Clone, Copy, Debug, PartialEq, Eq, Structural)]
pub enum SubscriptionState {
    /// Eligible to receive deltas and the terminal outcome.
    Active,
    /// Subscriber could not keep pace with its bounded queue.
    DroppedSlowConsumer,
    /// Terminal state was published.
    Finished,
}

impl View for SubscriptionState {
    type V = Self;

    open spec fn view(&self) -> Self {
        *self
    }
}

impl DeepView for SubscriptionState {
    type V = Self;

    open spec fn deep_view(&self) -> Self {
        self.view()
    }
}

/// Terminal streaming observation.
#[derive(Debug, PartialEq, Eq)]
pub enum StreamTerminal {
    /// Same output visible to a blocking observer.
    Completed(RunOutput),
    /// Same canonical failure visible on the run entity.
    Failed(CanonicalError),
    /// Run was cancelled.
    Cancelled,
}

/// What a [`StreamTerminal`] holds.
#[verifier::ext_equal]
pub enum StreamTerminalView {
    Completed(RunOutputView),
    Failed(CanonicalErrorView),
    Cancelled,
}

impl View for StreamTerminal {
    type V = StreamTerminalView;

    open spec fn view(&self) -> StreamTerminalView {
        match self {
            StreamTerminal::Completed(x) => StreamTerminalView::Completed(x@),
            StreamTerminal::Failed(x) => StreamTerminalView::Failed(x@),
            StreamTerminal::Cancelled => StreamTerminalView::Cancelled,
        }
    }
}

impl DeepView for StreamTerminal {
    type V = StreamTerminalView;

    open spec fn deep_view(&self) -> StreamTerminalView {
        self.view()
    }
}

impl Clone for StreamTerminal {
    fn clone(&self) -> (r: Self)
        ensures
            r@ == self@,
    {
        match self {
            StreamTerminal::Completed(x) => StreamTerminal::Completed(x.clone()),
            StreamTerminal::Failed(x) => StreamTerminal::Failed(x.clone()),
            StreamTerminal::Cancelled => StreamTerminal::Cancelled,
        }
    }
}

/// Incremental observation from the same authoritative run state.
#[derive(Debug, PartialEq, Eq)]
pub enum StreamItem {
    /// Ordered model text delta.
    Delta {
        /// Model-operation-local sequence.
        sequence: u64,
        /// Incremental text.
        text: String,
    },
    /// Terminal run state published after commit.
    Finished(StreamTerminal),
}

/// What a [`StreamItem`] holds.
#[verifier::ext_equal]
pub enum StreamItemView {
    Delta { sequence: u64, text: Seq<char> },
    Finished(StreamTerminalView),
}

impl View for StreamItem {
    type V = StreamItemView;

    open spec fn view(&self) -> StreamItemView {
        match self {
            StreamItem::Delta { sequence, text } => StreamItemView::Delta {
                sequence: *sequence,
                text: text@,
            },
            StreamItem::Finished(x) => StreamItemView::Finished(x@),
        }
    }
}

impl DeepView for StreamItem {
    type V = StreamItemView;

    open spec fn deep_view(&self) -> StreamItemView {
        self.view()
    }
}

impl Clone for StreamItem {
    fn clone(&self) -> (r: Self)
        ensures
            r@ == self@,
    {
        match self {
            StreamItem::Delta { sequence, text } => StreamItem::Delta {
                sequence: *sequence,
                text: text.clone(),
            },
            StreamItem::Finished(x) => StreamItem::Finished(x.clone()),
        }
    }
}

/// A prompt as it enters the runtime.
#[derive(Debug, PartialEq, Eq)]
pub struct PromptPayload {
    /// Canonical serialized user message.
    pub message: serde_json::Value,
    /// First textual part, where there is one.
    pub text: Option<String>,
    /// Whether the message is a single text.
    pub plain_text: bool,
}

/// What a [`PromptPayload`] holds.
#[verifier::ext_equal]
pub struct PromptPayloadView {
    pub message: serde_json::Value,
    pub text: Option<Seq<char>>,
    pub plain_text: bool,
}

impl View for PromptPayload {
    type V = PromptPayloadView;

    open spec fn view(&self) -> PromptPayloadView {
        PromptPayloadView {
            message: self.message,
            text: self.text.deep_view(),
            plain_text: self.plain_text,
        }
    }
}

impl DeepView for PromptPayload {
    type V = PromptPayloadView;

    open spec fn deep_view(&self) -> PromptPayloadView {
        self.view()
    }
}

impl Clone for PromptPayload {
    fn clone(&self) -> (r: Self)
        ensures
            r@ == self@,
    {
        let r = PromptPayload {
            message: self.message.clone(),
            text: self.text.clone(),
            plain_text: self.plain_text,
        };
        assert(r.text.deep_view() =~= self.text.deep_view());
        r
    }
}

/// A request that waits for the next schedule pass.
#[derive(Debug, PartialEq, Eq)]
pub enum RuntimeCommand {
    /// Start a run.
    Prompt {
        agent: Entity,
        run_id: StableId,
        prompt: PromptPayload,
        history: Vec<serde_json::Value>,
        output_schema: Option<serde_json::Value>,
        max_model_calls: Option<u32>,
        conversation: Option<StableId>,
        subscriber: Option<u64>,
    },
    /// Cancel a run.
    Cancel {
        run: Entity,
    },
    /// Ask a discovery source for a new generation.
    RefreshDiscovery {
        source: Entity,
    },
}

/// What a [`RuntimeCommand`] holds.
#[verifier::ext_equal]
pub enum RuntimeCommandView {
    Prompt { agent: Entity, run_id: Seq<char>, prompt: PromptPayloadView, history: Seq<serde_json::Value>, output_schema: Option<serde_json::Value>, max_model_calls: Option<u32>, conversation: Option<Seq<char>>, subscriber: Option<u64> },
    Cancel { run: Entity },
    RefreshDiscovery { source: Entity },
}

impl View for RuntimeCommand {
    type V = RuntimeCommandView;

    open spec fn view(&self) -> RuntimeCommandView {
        match self {
            RuntimeCommand::Prompt { agent, run_id, prompt, history, output_schema, max_model_calls, conversation, subscriber } => RuntimeCommandView::Prompt {
                agent: *agent,
                run_id: run_id@,
                prompt: prompt@,
                history: history@,
                output_schema: *output_schema,
                max_model_calls: *max_model_calls,
                conversation: conversation.deep_view(),
                subscriber: *subscriber,
            },
            RuntimeCommand::Cancel { run } => RuntimeCommandView::Cancel {
                run: *run,
            },
            RuntimeCommand::RefreshDiscovery { source } => RuntimeCommandView::RefreshDiscovery {
                source: *source,
            },
        }
    }
}

impl DeepView for RuntimeCommand {
    type V = RuntimeCommandView;

    open spec fn deep_view(&self) -> RuntimeCommandView {
        self.view()
    }
}

impl Clone for RuntimeCommand {
    fn clone(&self) -> (r: Self)
        ensures
            r@ == self@,
    {
        let r = match self {
            RuntimeCommand::Prompt { agent, run_id, prompt, history, output_schema, max_model_calls, conversation, subscriber } => RuntimeCommand::Prompt {
                agent: *agent,
                run_id: run_id.clone(),
                prompt: prompt.clone(),
                history: history.clone(),
                output_schema: output_schema.clone(),
                max_model_calls: *max_model_calls,
                conversation: conversation.clone(),
                subscriber: *subscriber,
            },
            RuntimeCommand::Cancel { run } => RuntimeCommand::Cancel {
                run: *run,
            },
            RuntimeCommand::RefreshDiscovery { source } => RuntimeCommand::RefreshDiscovery {
                source: *source,
            },
        };
        assert(r@ =~~= self@);
        r
    }
}

/// Rebuildable lifecycle metrics derived from authoritative ECS state.
#[derive(Clone, Copy, Debug, PartialEq, Eq, Structural)]
pub struct RuntimeMetrics {
    /// Non-terminal runs.
    pub active_runs: usize,
    /// Successfully completed retained runs.
    pub completed_runs: usize,
    /// Failed retained runs.
    pub failed_runs: usize,
    /// Cancelled retained runs.
    pub cancelled_runs: usize,
    /// Operations currently outside the world at the effect boundary.
    pub in_flight_operations: usize,
    /// Prepared operations waiting for bounded queue capacity.
    pub prepared_operations: usize,
    /// Settled operations retained for audit/cleanup.
    pub settled_operations: usize,
    /// Capability versions retired but still retained.
    pub retired_tools: usize,
    /// Stream subscribers dropped for backpressure.
    pub dropped_subscribers: usize,
    /// Terminal runs retained until their result is observed.
    pub unobserved_terminal_runs: usize,
}

impl View for RuntimeMetrics {
    type V = Self;

    open spec fn view(&self) -> Self {
        *self
    }
}

impl DeepView for RuntimeMetrics {
    type V = Self;

    open spec fn deep_view(&self) -> Self {
        self.view()
    }
}

/// Runtime invariant violation found by scheduled validation.
#[derive(Debug, PartialEq, Eq)]
pub enum RuntimeInvariantError {
    /// Stable IDs must be unique inside one authoritative world.
    DuplicateStableId(String),
    /// A relationship points at a stale entity or an entity of the wrong kind.
    InvalidRelationship {
        /// Entity containing the relationship.
        entity: Entity,
        /// Relationship name.
        relationship: &'static str,
        /// Referenced entity.
        target: Entity,
    },
    /// A relationship crosses tenant scopes.
    RelationshipTenantMismatch {
        /// Entity containing the relationship.
        entity: Entity,
        /// Relationship name.
        relationship: &'static str,
    },
}

/// What a [`RuntimeInvariantError`] holds.
#[verifier::ext_equal]
pub enum RuntimeInvariantErrorView {
    DuplicateStableId(Seq<char>),
    InvalidRelationship { entity: Entity, relationship: Seq<char>, target: Entity },
    RelationshipTenantMismatch { entity: Entity, relationship: Seq<char> },
}

impl View for RuntimeInvariantError {
    type V = RuntimeInvariantErrorView;

    open spec fn view(&self) -> RuntimeInvariantErrorView {
        match self {
            RuntimeInvariantError::DuplicateStableId(x) => RuntimeInvariantErrorView::DuplicateStableId(x@),
            RuntimeInvariantError::InvalidRelationship { entity, relationship, target } => RuntimeInvariantErrorView::InvalidRelationship {
                entity: *entity,
                relationship: relationship@,
                target: *target,
            },
            RuntimeInvariantError::RelationshipTenantMismatch { entity, relationship } => RuntimeInvariantErrorView::RelationshipTenantMismatch {
                entity: *entity,
                relationship: relationship@,
            },
        }
    }
}

impl DeepView for RuntimeInvariantError {
    type V = RuntimeInvariantErrorView;

    open spec fn deep_view(&self) -> RuntimeInvariantErrorView {
        self.view()
    }
}

impl Clone for RuntimeInvariantError {
    fn clone(&self) -> (r: Self)
        ensures
            r@ == self@,
    {
        match self {
            RuntimeInvariantError::DuplicateStableId(x) => RuntimeInvariantError::DuplicateStableId(x.clone()),
            RuntimeInvariantError::InvalidRelationship { entity, relationship, target } => RuntimeInvariantError::InvalidRelationship {
                entity: *entity,
                relationship: *relationship,
                target: *target,
            },
            RuntimeInvariantError::RelationshipTenantMismatch { entity, relationship } => RuntimeInvariantError::RelationshipTenantMismatch {
                entity: *entity,
                relationship: *relationship,
            },
        }
    }
}

/// Error returned when bounded runtime ingress cannot accept work.
#[derive(Debug, PartialEq, Eq)]
pub enum SubmitError {
    /// A handle belongs to another runtime world.
    ForeignRuntime,
    /// The configured bounded queue is full.
    Backpressure,
    /// The runtime has shut down.
    Disconnected,
    /// Stable run identity was invalid.
    InvalidIdentity(IdentityError),
    /// A canonical completion message could not be represented at ingress.
    InvalidPrompt(String),
}

/// What a [`SubmitError`] holds.
#[verifier::ext_equal]
pub enum SubmitErrorView {
    ForeignRuntime,
    Backpressure,
    Disconnected,
    InvalidIdentity(IdentityError),
    InvalidPrompt(Seq<char>),
}

impl View for SubmitError {
    type V = SubmitErrorView;

    open spec fn view(&self) -> SubmitErrorView {
        match self {
            SubmitError::ForeignRuntime => SubmitErrorView::ForeignRuntime,
            SubmitError::Backpressure => SubmitErrorView::Backpressure,
            SubmitError::Disconnected => SubmitErrorView::Disconnected,
            SubmitError::InvalidIdentity(x) => SubmitErrorView::InvalidIdentity(*x),
            SubmitError::InvalidPrompt(x) => SubmitErrorView::InvalidPrompt(x@),
        }
    }
}

impl DeepView for SubmitError {
    type V = SubmitErrorView;

    open spec fn deep_view(&self) -> SubmitErrorView {
        self.view()
    }
}

impl Clone for SubmitError {
    fn clone(&self) -> (r: Self)
        ensures
            r@ == self@,
    {
        match self {
            SubmitError::ForeignRuntime => SubmitError::ForeignRuntime,
            SubmitError::Backpressure => SubmitError::Backpressure,
            SubmitError::Disconnected => SubmitError::Disconnected,
            SubmitError::InvalidIdentity(x) => SubmitError::InvalidIdentity(*x),
            SubmitError::InvalidPrompt(x) => SubmitError::InvalidPrompt(x.clone()),
        }
    }
}

/// Entity construction error.
#[derive(Debug, PartialEq, Eq)]
pub enum SpawnError {
    /// Stable ID already exists in this world.
    DuplicateStableId(String),
    /// Related entity is stale or missing required components.
    StaleEntity(Entity),
    /// Cross-tenant relationship was rejected.
    TenantMismatch,
    /// Handle belongs to another authoritative world.
    ForeignRuntime,
}

/// What a [`SpawnError`] holds.
#[verifier::ext_equal]
pub enum SpawnErrorView {
    DuplicateStableId(Seq<char>),
    StaleEntity(Entity),
    TenantMismatch,
    ForeignRuntime,
}

impl View for SpawnError {
    type V = SpawnErrorView;

    open spec fn view(&self) -> SpawnErrorView {
        match self {
            SpawnError::DuplicateStableId(x) => SpawnErrorView::DuplicateStableId(x@),
            SpawnError::StaleEntity(x) => SpawnErrorView::StaleEntity(*x),
            SpawnError::TenantMismatch => SpawnErrorView::TenantMismatch,
            SpawnError::ForeignRuntime => SpawnErrorView::ForeignRuntime,
        }
    }
}

impl DeepView for SpawnError {
    type V = SpawnErrorView;

    open spec fn deep_view(&self) -> SpawnErrorView {
        self.view()
    }
}

impl Clone for SpawnError {
    fn clone(&self) -> (r: Self)
        ensures
            r@ == self@,
    {
        match self {
            SpawnError::DuplicateStableId(x) => SpawnError::DuplicateStableId(x.clone()),
            SpawnError::StaleEntity(x) => SpawnError::StaleEntity(*x),
            SpawnError::TenantMismatch => SpawnError::TenantMismatch,
            SpawnError::ForeignRuntime => SpawnError::ForeignRuntime,
        }
    }
}

/// Explicit persistence/remapping failure.
#[derive(Debug, PartialEq, Eq)]
pub enum PersistenceError {
    /// Snapshot contains a duplicate or conflicts with current world state.
    ConflictingStableId(String),
    /// Relationship target is absent from both snapshot and current world.
    MissingReference(String),
    /// Related persisted records cross tenant scopes.
    TenantMismatch(String),
    /// Live ECS relationship is stale while taking a snapshot.
    StaleRelationship(Entity),
}

/// What a [`PersistenceError`] holds.
#[verifier::ext_equal]
pub enum PersistenceErrorView {
    ConflictingStableId(Seq<char>),
    MissingReference(Seq<char>),
    TenantMismatch(Seq<char>),
    StaleRelationship(Entity),
}

impl View for PersistenceError {
    type V = PersistenceErrorView;

    open spec fn view(&self) -> PersistenceErrorView {
        match self {
            PersistenceError::ConflictingStableId(x) => PersistenceErrorView::ConflictingStableId(x@),
            PersistenceError::MissingReference(x) => PersistenceErrorView::MissingReference(x@),
            PersistenceError::TenantMismatch(x) => PersistenceErrorView::TenantMismatch(x@),
            PersistenceError::StaleRelationship(x) => PersistenceErrorView::StaleRelationship(*x),
        }
    }
}

impl DeepView for PersistenceError {
    type V = PersistenceErrorView;

    open spec fn deep_view(&self) -> PersistenceErrorView {
        self.view()
    }
}

impl Clone for PersistenceError {
    fn clone(&self) -> (r: Self)
        ensures
            r@ == self@,
    {
        match self {
            PersistenceError::ConflictingStableId(x) => PersistenceError::ConflictingStableId(x.clone()),
            PersistenceError::MissingReference(x) => PersistenceError::MissingReference(x.clone()),
            PersistenceError::TenantMismatch(x) => PersistenceError::TenantMismatch(x.clone()),
            PersistenceError::StaleRelationship(x) => PersistenceError::StaleRelationship(*x),
        }
    }
}

/// Local driver error.
#[derive(Clone, Copy, Debug, PartialEq, Eq, Structural)]
pub enum DriveError {
    /// Systems continued making immediate progress beyond the guard.
    ProgressLimit(usize),
}

impl View for DriveError {
    type V = Self;

    open spec fn view(&self) -> Self {
        *self
    }
}

impl DeepView for DriveError {
    type V = Self;

    open spec fn deep_view(&self) -> Self {
        self.view()
    }
}

/// Runtime installation error.
#[derive(Clone, Copy, Debug, PartialEq, Eq, Structural)]
pub enum InstallError {
    /// Rig was already installed into this world.
    AlreadyInstalled,
    /// Queue capacities and progress limits must be non-zero.
    InvalidCapacity,
}

impl View for InstallError {
    type V = Self;

    open spec fn view(&self) -> Self {
        *self
    }
}

impl DeepView for InstallError {
    type V = Self;

    open spec fn deep_view(&self) -> Self {
        self.view()
    }
}

/// Effect boundary error.
#[derive(Clone, Copy, Debug, PartialEq, Eq, Structural)]
pub enum EffectIoError {
    /// Queue is currently full.
    Backpressure,
    /// Runtime or executor has shut down.
    Disconnected,
    /// Another thread panicked while holding the queue lock.
    Poisoned,
}

impl View for EffectIoError {
    type V = Self;

    open spec fn view(&self) -> Self {
        *self
    }
}

impl DeepView for EffectIoError {
    type V = Self;

    open spec fn deep_view(&self) -> Self {
        self.view()
    }
}

/// Stream receiver failure.
#[derive(Clone, Copy, Debug, PartialEq, Eq, Structural)]
pub enum StreamReceiveError {
    /// Runtime dropped the subscription channel.
    Disconnected,
}

impl View for StreamReceiveError {
    type V = Self;

    open spec fn view(&self) -> Self {
        *self
    }
}

impl DeepView for StreamReceiveError {
    type V = Self;

    open spec fn deep_view(&self) -> Self {
        self.view()
    }
}

/// A stable handle scoped to one runtime world.
#[derive(Clone, Copy, Debug, PartialEq, Eq, Structural)]
pub struct AgentHandle {
    /// Runtime that the handle belongs to.
    pub runtime_id: u64,
    /// Entity behind the handle.
    pub entity: Entity,
}

impl View for AgentHandle {
    type V = Self;

    open spec fn view(&self) -> Self {
        *self
    }
}

impl DeepView for AgentHandle {
    type V = Self;

    open spec fn deep_view(&self) -> Self {
        self.view()
    }
}

/// Discovery source handle scoped to one authoritative runtime world.
#[derive(Clone, Copy, Debug, PartialEq, Eq, Structural)]
pub struct DiscoveryHandle {
    /// Runtime that the handle belongs to.
    pub runtime_id: u64,
    /// Entity behind the handle.
    pub entity: Entity,
}

impl View for DiscoveryHandle {
    type V = Self;

    open spec fn view(&self) -> Self {
        *self
    }
}

impl DeepView for DiscoveryHandle {
    type V = Self;

    open spec fn deep_view(&self) -> Self {
        self.view()
    }
}

/// Entity-backed run handle after command ingestion.
#[derive(Clone, Copy, Debug, PartialEq, Eq, Structural)]
pub struct RunHandle {
    /// Runtime that the handle belongs to.
    pub runtime_id: u64,
    /// Entity behind the handle.
    pub entity: Entity,
}

impl View for RunHandle {
    type V = Self;

    open spec fn view(&self) -> Self {
        *self
    }
}

impl DeepView for RunHandle {
    type V = Self;

    open spec fn deep_view(&self) -> Self {
        self.view()
    }
}

/// A run handle scoped to one runtime world.
#[derive(Debug, PartialEq, Eq)]
pub struct PendingRunHandle {
    /// Runtime that the handle belongs to.
    pub runtime_id: u64,
    /// Persistent identity of the run.
    pub stable_id: StableId,
}

/// What a [`PendingRunHandle`] holds.
#[verifier::ext_equal]
pub struct PendingRunHandleView {
    pub runtime_id: u64,
    pub stable_id: Seq<char>,
}

impl View for PendingRunHandle {
    type V = PendingRunHandleView;

    open spec fn view(&self) -> PendingRunHandleView {
        PendingRunHandleView {
            runtime_id: self.runtime_id,
            stable_id: self.stable_id@,
        }
    }
}

impl DeepView for PendingRunHandle {
    type V = PendingRunHandleView;

    open spec fn deep_view(&self) -> PendingRunHandleView {
        self.view()
    }
}

impl Clone for PendingRunHandle {
    fn clone(&self) -> (r: Self)
        ensures
            r@ == self@,
    {
        PendingRunHandle {
            runtime_id: self.runtime_id,
            stable_id: self.stable_id.clone(),
        }
    }
}

/// Bounded runtime queue configuration.
#[derive(Clone, Copy, Debug, PartialEq, Eq, Structural)]
pub struct RuntimeConfig {
    /// Maximum pending facade commands.
    pub command_capacity: usize,
    /// Maximum pending external effects.
    pub effect_capacity: usize,
    /// Maximum pending effect completions.
    pub completion_capacity: usize,
    /// Per-run stream subscription capacity and slow-consumer threshold.
    pub subscriber_capacity: usize,
    /// Maximum schedule passes in `Runtime::run_until_stalled`.
    pub progress_limit: usize,
    /// Maximum schedule ticks an external effect may remain in flight.
    pub effect_timeout_ticks: u64,
}

impl View for RuntimeConfig {
    type V = Self;

    open spec fn view(&self) -> Self {
        *self
    }
}

impl DeepView for RuntimeConfig {
    type V = Self;

    open spec fn deep_view(&self) -> Self {
        self.view()
    }
}

} // verus!
