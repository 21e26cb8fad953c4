//! The world: every entity with its components.

use vstd::prelude::*;

use crate::capability::{
    AcceptedPolicies, AcceptedPoliciesView, Agent, AgentView, DiscoveryKey, DiscoveryKeyView,
    ModelCapability, ModelCapabilityView, OutputRequirement, Policy, PolicyProgress, PolicyView,
    RetiredCapability, RetrievalRequirement, StoreCapability, StoreCapabilityView, StoreGrant,
    ToolCapability, ToolCapabilityView, ToolGrant,
};
use crate::column::{lemma_remove_insert, without_target, Column, Entity};
use crate::control::RunControl;
use crate::effect::{
    CanonicalError, CanonicalErrorView, DiscoveryEffectInput, DiscoveryEffectInputView,
    EffectDeadline, EffectIngress, EffectIngressView, ModelDecision, ModelDecisionView,
    ModelEffectInput, ModelEffectInputView, OperationKind, OperationPhase, OperationPhaseView,
    OperationState, OperationStateView, StoreEffectInput, StoreEffectInputView, ToolEffectInput,
    ToolEffectInputView,
};
use crate::extension::ExtensionEffectKind;
use crate::identity::{StableId, TenantId};
use crate::policy::{PolicyEvaluation, PolicyEvaluationView, PolicyStatus};
use crate::run::{
    CommittedTurn, CommittedTurnView, DiscoverySource, DiscoverySourceView, ModelStreamState,
    RunRecord, RunRecordView, RunState, RunStateView, RuntimeInvariantError,
    RuntimeInvariantErrorView, RuntimeMetrics, SubscriptionState, ToolBatchState,
};
use crate::text_map::TextMap;

verus! {

broadcast use lemma_remove_insert;

/// Configured entities: agents, capabilities, grants and policies.
#[derive(Debug)]
pub struct Domain {
    /// Agent configuration.
    pub agents: Column<Agent>,
    /// Model capabilities.
    pub models: Column<ModelCapability>,
    /// From an agent to its selected model.
    pub uses_model: Column<Entity>,
    /// Structured-output requirements of agents.
    pub output_requirements: Column<OutputRequirement>,
    /// Retrieval requirements of agents.
    pub retrieval_requirements: Column<RetrievalRequirement>,
    /// Policy instances.
    pub policies: Column<Policy>,
    /// From a policy to the agent it governs.
    pub policy_for: Column<Entity>,
    /// Admission status of policies.
    pub policy_status: Column<PolicyStatus>,
    /// Tool capabilities.
    pub tools: Column<ToolCapability>,
    /// Access metadata between an agent and a tool.
    pub tool_grants: Column<ToolGrant>,
    /// From a tool grant to its agent.
    pub grant_for_agent: Column<Entity>,
    /// From a tool grant to its tool.
    pub grant_for_tool: Column<Entity>,
    /// Store capabilities.
    pub stores: Column<StoreCapability>,
    /// Access metadata between an agent and a store.
    pub store_grants: Column<StoreGrant>,
    /// From a store grant to its agent.
    pub store_grant_for_agent: Column<Entity>,
    /// From a store grant to its store.
    pub store_grant_for_store: Column<Entity>,
    /// Discovery sources.
    pub sources: Column<DiscoverySource>,
    /// From a discovered tool to its source.
    pub discovered_from: Column<Entity>,
    /// Source-local identity of discovered tools.
    pub discovery_keys: Column<DiscoveryKey>,
    /// Retired capability versions.
    pub retired: Column<RetiredCapability>,
}

/// What a [`Domain`] holds.
#[verifier::ext_equal]
pub struct DomainView {
    pub agents: Map<Entity, AgentView>,
    pub models: Map<Entity, ModelCapabilityView>,
    pub uses_model: Map<Entity, Entity>,
    pub output_requirements: Map<Entity, OutputRequirement>,
    pub retrieval_requirements: Map<Entity, RetrievalRequirement>,
    pub policies: Map<Entity, PolicyView>,
    pub policy_for: Map<Entity, Entity>,
    pub policy_status: Map<Entity, PolicyStatus>,
    pub tools: Map<Entity, ToolCapabilityView>,
    pub tool_grants: Map<Entity, ToolGrant>,
    pub grant_for_agent: Map<Entity, Entity>,
    pub grant_for_tool: Map<Entity, Entity>,
    pub stores: Map<Entity, StoreCapabilityView>,
    pub store_grants: Map<Entity, StoreGrant>,
    pub store_grant_for_agent: Map<Entity, Entity>,
    pub store_grant_for_store: Map<Entity, Entity>,
    pub sources: Map<Entity, DiscoverySourceView>,
    pub discovered_from: Map<Entity, Entity>,
    pub discovery_keys: Map<Entity, DiscoveryKeyView>,
    pub retired: Map<Entity, RetiredCapability>,
}

impl View for Domain {
    type V = DomainView;

    open spec fn view(&self) -> DomainView {
        DomainView {
            agents: self.agents@,
            models: self.models@,
            uses_model: self.uses_model@,
            output_requirements: self.output_requirements@,
            retrieval_requirements: self.retrieval_requirements@,
            policies: self.policies@,
            policy_for: self.policy_for@,
            policy_status: self.policy_status@,
            tools: self.tools@,
            tool_grants: self.tool_grants@,
            grant_for_agent: self.grant_for_agent@,
            grant_for_tool: self.grant_for_tool@,
            stores: self.stores@,
            store_grants: self.store_grants@,
            store_grant_for_agent: self.store_grant_for_agent@,
            store_grant_for_store: self.store_grant_for_store@,
            sources: self.sources@,
            discovered_from: self.discovered_from@,
            discovery_keys: self.discovery_keys@,
            retired: self.retired@,
        }
    }
}

impl DomainView {
    /// Nothing at all.
    pub open spec fn empty() -> DomainView {
        DomainView {
            agents: Map::empty(),
            models: Map::empty(),
            uses_model: Map::empty(),
            output_requirements: Map::empty(),
            retrieval_requirements: Map::empty(),
            policies: Map::empty(),
            policy_for: Map::empty(),
            policy_status: Map::empty(),
            tools: Map::empty(),
            tool_grants: Map::empty(),
            grant_for_agent: Map::empty(),
            grant_for_tool: Map::empty(),
            stores: Map::empty(),
            store_grants: Map::empty(),
            store_grant_for_agent: Map::empty(),
            store_grant_for_store: Map::empty(),
            sources: Map::empty(),
            discovered_from: Map::empty(),
            discovery_keys: Map::empty(),
            retired: Map::empty(),
        }
    }

    /// The components without those of `e` and without the relations that point at it.
    pub open spec fn without(self, e: Entity) -> DomainView {
        DomainView {
            agents: self.agents.remove(e),
            models: self.models.remove(e),
            uses_model: without_target(self.uses_model.remove(e), e),
            output_requirements: self.output_requirements.remove(e),
            retrieval_requirements: self.retrieval_requirements.remove(e),
            policies: self.policies.remove(e),
            policy_for: without_target(self.policy_for.remove(e), e),
            policy_status: self.policy_status.remove(e),
            tools: self.tools.remove(e),
            tool_grants: self.tool_grants.remove(e),
            grant_for_agent: without_target(self.grant_for_agent.remove(e), e),
            grant_for_tool: without_target(self.grant_for_tool.remove(e), e),
            stores: self.stores.remove(e),
            store_grants: self.store_grants.remove(e),
            store_grant_for_agent: without_target(self.store_grant_for_agent.remove(e), e),
            store_grant_for_store: without_target(self.store_grant_for_store.remove(e), e),
            sources: self.sources.remove(e),
            discovered_from: without_target(self.discovered_from.remove(e), e),
            discovery_keys: self.discovery_keys.remove(e),
            retired: self.retired.remove(e),
        }
    }
}

impl Domain {
    /// Columns without rows.
    pub fn new() -> (r: Self)
        ensures
            r@ == DomainView::empty(),
    {
        Domain {
            agents: Column::new(),
            models: Column::new(),
            uses_model: Column::new(),
            output_requirements: Column::new(),
            retrieval_requirements: Column::new(),
            policies: Column::new(),
            policy_for: Column::new(),
            policy_status: Column::new(),
            tools: Column::new(),
            tool_grants: Column::new(),
            grant_for_agent: Column::new(),
            grant_for_tool: Column::new(),
            stores: Column::new(),
            store_grants: Column::new(),
            store_grant_for_agent: Column::new(),
            store_grant_for_store: Column::new(),
            sources: Column::new(),
            discovered_from: Column::new(),
            discovery_keys: Column::new(),
            retired: Column::new(),
        }
    }

    fn despawn(&mut self, e: Entity)
        ensures
            final(self)@ == old(self)@.without(e),
    {
        let _ = self.agents.remove(e);
        let _ = self.models.remove(e);
        let _ = self.uses_model.remove(e);
        self.uses_model.remove_target(e);
        let _ = self.output_requirements.remove(e);
        let _ = self.retrieval_requirements.remove(e);
        let _ = self.policies.remove(e);
        let _ = self.policy_for.remove(e);
        self.policy_for.remove_target(e);
        let _ = self.policy_status.remove(e);
        let _ = self.tools.remove(e);
        let _ = self.tool_grants.remove(e);
        let _ = self.grant_for_agent.remove(e);
        self.grant_for_agent.remove_target(e);
        let _ = self.grant_for_tool.remove(e);
        self.grant_for_tool.remove_target(e);
        let _ = self.stores.remove(e);
        let _ = self.store_grants.remove(e);
        let _ = self.store_grant_for_agent.remove(e);
        self.store_grant_for_agent.remove_target(e);
        let _ = self.store_grant_for_store.remove(e);
        self.store_grant_for_store.remove_target(e);
        let _ = self.sources.remove(e);
        let _ = self.discovered_from.remove(e);
        self.discovered_from.remove_target(e);
        let _ = self.discovery_keys.remove(e);
        let _ = self.retired.remove(e);
    }
}

/// Runs with their turns and subscriptions.
#[derive(Debug)]
pub struct Runs {
    /// Phase and outcome of a run.
    pub states: Column<RunState>,
    /// Input and committed transcript of a run.
    pub records: Column<RunRecord>,
    /// From a run to its agent.
    pub run_of: Column<Entity>,
    /// Committed turns.
    pub turns: Column<CommittedTurn>,
    /// From a committed turn to its run.
    pub turn_of: Column<Entity>,
    /// Stream subscriptions.
    pub subscriptions: Column<SubscriptionState>,
    /// From a subscription to its run.
    pub subscription_of: Column<Entity>,
    /// Number of the stream that a subscription feeds.
    pub sinks: Column<u64>,
    /// Runs whose outcome was published.
    pub published: Column<bool>,
}

/// What a [`Runs`] holds.
#[verifier::ext_equal]
pub struct RunsView {
    pub states: Map<Entity, RunStateView>,
    pub records: Map<Entity, RunRecordView>,
    pub run_of: Map<Entity, Entity>,
    pub turns: Map<Entity, CommittedTurnView>,
    pub turn_of: Map<Entity, Entity>,
    pub subscriptions: Map<Entity, SubscriptionState>,
    pub subscription_of: Map<Entity, Entity>,
    pub sinks: Map<Entity, u64>,
    pub published: Map<Entity, bool>,
}

impl View for Runs {
    type V = RunsView;

    open spec fn view(&self) -> RunsView {
        RunsView {
            states: self.states@,
            records: self.records@,
            run_of: self.run_of@,
            turns: self.turns@,
            turn_of: self.turn_of@,
            subscriptions: self.subscriptions@,
            subscription_of: self.subscription_of@,
            sinks: self.sinks@,
            published: self.published@,
        }
    }
}

impl RunsView {
    /// Nothing at all.
    pub open spec fn empty() -> RunsView {
        RunsView {
            states: Map::empty(),
            records: Map::empty(),
            run_of: Map::empty(),
            turns: Map::empty(),
            turn_of: Map::empty(),
            subscriptions: Map::empty(),
            subscription_of: Map::empty(),
            sinks: Map::empty(),
            published: Map::empty(),
        }
    }

    /// The components without those of `e` and without the relations that point at it.
    pub open spec fn without(self, e: Entity) -> RunsView {
        RunsView {
            states: self.states.remove(e),
            records: self.records.remove(e),
            run_of: without_target(self.run_of.remove(e), e),
            turns: self.turns.remove(e),
            turn_of: without_target(self.turn_of.remove(e), e),
            subscriptions: self.subscriptions.remove(e),
            subscription_of: without_target(self.subscription_of.remove(e), e),
            sinks: self.sinks.remove(e),
            published: self.published.remove(e),
        }
    }
}

impl Runs {
    /// Columns without rows.
    pub fn new() -> (r: Self)
        ensures
            r@ == RunsView::empty(),
    {
        Runs {
            states: Column::new(),
            records: Column::new(),
            run_of: Column::new(),
            turns: Column::new(),
            turn_of: Column::new(),
            subscriptions: Column::new(),
            subscription_of: Column::new(),
            sinks: Column::new(),
            published: Column::new(),
        }
    }

    fn despawn(&mut self, e: Entity)
        ensures
            final(self)@ == old(self)@.without(e),
    {
        let _ = self.states.remove(e);
        let _ = self.records.remove(e);
        let _ = self.run_of.remove(e);
        self.run_of.remove_target(e);
        let _ = self.turns.remove(e);
        let _ = self.turn_of.remove(e);
        self.turn_of.remove_target(e);
        let _ = self.subscriptions.remove(e);
        let _ = self.subscription_of.remove(e);
        self.subscription_of.remove_target(e);
        let _ = self.sinks.remove(e);
        let _ = self.published.remove(e);
    }
}

/// Controls, families of runs and what extensions keep.
#[derive(Debug)]
pub struct Controls {
    /// Control of a run.
    pub controls: Column<RunControl>,
    /// From a child run to its parent.
    pub parents: Column<Entity>,
    /// Runs that wait for their children.
    pub waiting_for_children: Column<bool>,
    /// Kind of an extension effect.
    pub extension_kinds: Column<ExtensionEffectKind>,
    /// From a policy evaluation to its operation.
    pub evaluation_of: Column<Entity>,
    /// Policy evaluations.
    pub evaluations: Column<PolicyEvaluation>,
}

/// What a [`Controls`] holds.
#[verifier::ext_equal]
pub struct ControlsView {
    pub controls: Map<Entity, RunControl>,
    pub parents: Map<Entity, Entity>,
    pub waiting_for_children: Map<Entity, bool>,
    pub extension_kinds: Map<Entity, Seq<char>>,
    pub evaluation_of: Map<Entity, Entity>,
    pub evaluations: Map<Entity, PolicyEvaluationView>,
}

impl View for Controls {
    type V = ControlsView;

    open spec fn view(&self) -> ControlsView {
        ControlsView {
            controls: self.controls@,
            parents: self.parents@,
            waiting_for_children: self.waiting_for_children@,
            extension_kinds: self.extension_kinds@,
            evaluation_of: self.evaluation_of@,
            evaluations: self.evaluations@,
        }
    }
}

impl ControlsView {
    /// Nothing at all.
    pub open spec fn empty() -> ControlsView {
        ControlsView {
            controls: Map::empty(),
            parents: Map::empty(),
            waiting_for_children: Map::empty(),
            extension_kinds: Map::empty(),
            evaluation_of: Map::empty(),
            evaluations: Map::empty(),
        }
    }

    /// The components without those of `e` and without the relations that point at it.
    pub open spec fn without(self, e: Entity) -> ControlsView {
        ControlsView {
            controls: self.controls.remove(e),
            parents: without_target(self.parents.remove(e), e),
            waiting_for_children: self.waiting_for_children.remove(e),
            extension_kinds: self.extension_kinds.remove(e),
            evaluation_of: without_target(self.evaluation_of.remove(e), e),
            evaluations: self.evaluations.remove(e),
        }
    }
}

impl Controls {
    /// Columns without rows.
    pub fn new() -> (r: Self)
        ensures
            r@ == ControlsView::empty(),
    {
        Controls {
            controls: Column::new(),
            parents: Column::new(),
            waiting_for_children: Column::new(),
            extension_kinds: Column::new(),
            evaluation_of: Column::new(),
            evaluations: Column::new(),
        }
    }

    fn despawn(&mut self, e: Entity)
        ensures
            final(self)@ == old(self)@.without(e),
    {
        let _ = self.controls.remove(e);
        let _ = self.parents.remove(e);
        self.parents.remove_target(e);
        let _ = self.waiting_for_children.remove(e);
        let _ = self.extension_kinds.remove(e);
        let _ = self.evaluation_of.remove(e);
        self.evaluation_of.remove_target(e);
        let _ = self.evaluations.remove(e);
    }
}

/// External operations and tool batches.
#[derive(Debug)]
pub struct Operations {
    /// Kind of an operation.
    pub kinds: Column<OperationKind>,
    /// Generation and phase of an operation.
    pub states: Column<OperationState>,
    /// From an operation to its run.
    pub operation_of: Column<Entity>,
    /// Deadline of an operation in flight.
    pub deadlines: Column<EffectDeadline>,
    /// Input of a model operation.
    pub model_inputs: Column<ModelEffectInput>,
    /// Model decision of a model operation.
    pub model_decisions: Column<ModelDecision>,
    /// Next delta of a model operation.
    pub stream_states: Column<ModelStreamState>,
    /// Policies applied to a model operation.
    pub accepted_policies: Column<AcceptedPolicies>,
    /// Whether the policies of a model operation were applied.
    pub policy_progress: Column<PolicyProgress>,
    /// Input of a tool operation.
    pub tool_inputs: Column<ToolEffectInput>,
    /// From a tool operation to its batch.
    pub operation_of_batch: Column<Entity>,
    /// Tool batches.
    pub batches: Column<ToolBatchState>,
    /// From a tool batch to its run.
    pub batch_of: Column<Entity>,
    /// Input of a store operation.
    pub store_inputs: Column<StoreEffectInput>,
    /// Input of a discovery operation.
    pub discovery_inputs: Column<DiscoveryEffectInput>,
    /// From a discovery operation to its source.
    pub discovery_operation_of: Column<Entity>,
    /// Discovery operations whose outcome was applied.
    pub discovery_applied: Column<bool>,
}

/// What a [`Operations`] holds.
#[verifier::ext_equal]
pub struct OperationsView {
    pub kinds: Map<Entity, OperationKind>,
    pub states: Map<Entity, OperationStateView>,
    pub operation_of: Map<Entity, Entity>,
    pub deadlines: Map<Entity, EffectDeadline>,
    pub model_inputs: Map<Entity, ModelEffectInputView>,
    pub model_decisions: Map<Entity, ModelDecisionView>,
    pub stream_states: Map<Entity, ModelStreamState>,
    pub accepted_policies: Map<Entity, AcceptedPoliciesView>,
    pub policy_progress: Map<Entity, PolicyProgress>,
    pub tool_inputs: Map<Entity, ToolEffectInputView>,
    pub operation_of_batch: Map<Entity, Entity>,
    pub batches: Map<Entity, ToolBatchState>,
    pub batch_of: Map<Entity, Entity>,
    pub store_inputs: Map<Entity, StoreEffectInputView>,
    pub discovery_inputs: Map<Entity, DiscoveryEffectInputView>,
    pub discovery_operation_of: Map<Entity, Entity>,
    pub discovery_applied: Map<Entity, bool>,
}

impl View for Operations {
    type V = OperationsView;

    open spec fn view(&self) -> OperationsView {
        OperationsView {
            kinds: self.kinds@,
            states: self.states@,
            operation_of: self.operation_of@,
            deadlines: self.deadlines@,
            model_inputs: self.model_inputs@,
            model_decisions: self.model_decisions@,
            stream_states: self.stream_states@,
            accepted_policies: self.accepted_policies@,
            policy_progress: self.policy_progress@,
            tool_inputs: self.tool_inputs@,
            operation_of_batch: self.operation_of_batch@,
            batches: self.batches@,
            batch_of: self.batch_of@,
            store_inputs: self.store_inputs@,
            discovery_inputs: self.discovery_inputs@,
            discovery_operation_of: self.discovery_operation_of@,
            discovery_applied: self.discovery_applied@,
        }
    }
}

impl OperationsView {
    /// Nothing at all.
    pub open spec fn empty() -> OperationsView {
        OperationsView {
            kinds: Map::empty(),
            states: Map::empty(),
            operation_of: Map::empty(),
            deadlines: Map::empty(),
            model_inputs: Map::empty(),
            model_decisions: Map::empty(),
            stream_states: Map::empty(),
            accepted_policies: Map::empty(),
            policy_progress: Map::empty(),
            tool_inputs: Map::empty(),
            operation_of_batch: Map::empty(),
            batches: Map::empty(),
            batch_of: Map::empty(),
            store_inputs: Map::empty(),
            discovery_inputs: Map::empty(),
            discovery_operation_of: Map::empty(),
            discovery_applied: Map::empty(),
        }
    }

    /// The components without those of `e` and without the relations that point at it.
    pub open spec fn without(self, e: Entity) -> OperationsView {
        OperationsView {
            kinds: self.kinds.remove(e),
            states: self.states.remove(e),
            operation_of: without_target(self.operation_of.remove(e), e),
            deadlines: self.deadlines.remove(e),
            model_inputs: self.model_inputs.remove(e),
            model_decisions: self.model_decisions.remove(e),
            stream_states: self.stream_states.remove(e),
            accepted_policies: self.accepted_policies.remove(e),
            policy_progress: self.policy_progress.remove(e),
            tool_inputs: self.tool_inputs.remove(e),
            operation_of_batch: without_target(self.operation_of_batch.remove(e), e),
            batches: self.batches.remove(e),
            batch_of: without_target(self.batch_of.remove(e), e),
            store_inputs: self.store_inputs.remove(e),
            discovery_inputs: self.discovery_inputs.remove(e),
            discovery_operation_of: without_target(self.discovery_operation_of.remove(e), e),
            discovery_applied: self.discovery_applied.remove(e),
        }
    }
}

impl Operations {
    /// Columns without rows.
    pub fn new() -> (r: Self)
        ensures
            r@ == OperationsView::empty(),
    {
        Operations {
            kinds: Column::new(),
            states: Column::new(),
            operation_of: Column::new(),
            deadlines: Column::new(),
            model_inputs: Column::new(),
            model_decisions: Column::new(),
            stream_states: Column::new(),
            accepted_policies: Column::new(),
            policy_progress: Column::new(),
            tool_inputs: Column::new(),
            operation_of_batch: Column::new(),
            batches: Column::new(),
            batch_of: Column::new(),
            store_inputs: Column::new(),
            discovery_inputs: Column::new(),
            discovery_operation_of: Column::new(),
            discovery_applied: Column::new(),
        }
    }

    fn despawn(&mut self, e: Entity)
        ensures
            final(self)@ == old(self)@.without(e),
    {
        let _ = self.kinds.remove(e);
        let _ = self.states.remove(e);
        let _ = self.operation_of.remove(e);
        self.operation_of.remove_target(e);
        let _ = self.deadlines.remove(e);
        let _ = self.model_inputs.remove(e);
        let _ = self.model_decisions.remove(e);
        let _ = self.stream_states.remove(e);
        let _ = self.accepted_policies.remove(e);
        let _ = self.policy_progress.remove(e);
        let _ = self.tool_inputs.remove(e);
        let _ = self.operation_of_batch.remove(e);
        self.operation_of_batch.remove_target(e);
        let _ = self.batches.remove(e);
        let _ = self.batch_of.remove(e);
        self.batch_of.remove_target(e);
        let _ = self.store_inputs.remove(e);
        let _ = self.discovery_inputs.remove(e);
        let _ = self.discovery_operation_of.remove(e);
        self.discovery_operation_of.remove_target(e);
        let _ = self.discovery_applied.remove(e);
    }
}

/// What the schedule keeps besides entities.
#[derive(Debug)]
pub struct Resources {
    /// Runtime that was installed into the world, if one was.
    pub runtime: Option<u64>,
    /// Counts the changes that systems report as progress.
    pub epoch: u64,
    /// Schedule passes so far.
    pub tick: u64,
    /// Schedule ticks that an external effect may remain in flight.
    pub effect_timeout_ticks: u64,
    /// Entity of each stable id, as of the last reconciliation.
    pub index: TextMap<Entity>,
    /// Violations that the last reconciliation found.
    pub violations: Vec<RuntimeInvariantError>,
    /// Metrics as of the last pass.
    pub metrics: RuntimeMetrics,
    /// Completions and deltas that wait to be applied in this pass.
    pub messages: Vec<EffectIngress>,
}

/// What [`Resources`] hold.
#[verifier::ext_equal]
pub struct ResourcesView {
    pub runtime: Option<u64>,
    pub epoch: u64,
    pub tick: u64,
    pub effect_timeout_ticks: u64,
    pub index: Map<Seq<char>, Entity>,
    pub violations: Seq<RuntimeInvariantErrorView>,
    pub metrics: RuntimeMetrics,
    pub messages: Seq<EffectIngressView>,
}

impl View for Resources {
    type V = ResourcesView;

    open spec fn view(&self) -> ResourcesView {
        ResourcesView {
            runtime: self.runtime,
            epoch: self.epoch,
            tick: self.tick,
            effect_timeout_ticks: self.effect_timeout_ticks,
            index: self.index@,
            violations: self.violations.deep_view(),
            metrics: self.metrics,
            messages: self.messages.deep_view(),
        }
    }
}

/// Every entity with its components, and the schedule's own state.
#[derive(Debug)]
pub struct World {
    /// Number of the next entity.
    pub next: u64,
    /// Persistent identities.
    pub stable_ids: Column<StableId>,
    /// Tenant scopes.
    pub tenants: Column<TenantId>,
    /// Configured entities.
    pub domain: Domain,
    /// Runs.
    pub runs: Runs,
    /// External operations.
    pub operations: Operations,
    /// Controls, families and extensions.
    pub controls: Controls,
    /// State of the schedule.
    pub resources: Resources,
}

/// What a [`World`] holds.
#[verifier::ext_equal]
pub struct WorldView {
    pub next: u64,
    pub stable_ids: Map<Entity, Seq<char>>,
    pub tenants: Map<Entity, Seq<char>>,
    pub domain: DomainView,
    pub runs: RunsView,
    pub operations: OperationsView,
    pub controls: ControlsView,
    pub resources: ResourcesView,
}

impl View for World {
    type V = WorldView;

    open spec fn view(&self) -> WorldView {
        WorldView {
            next: self.next,
            stable_ids: self.stable_ids@,
            tenants: self.tenants@,
            domain: self.domain@,
            runs: self.runs@,
            operations: self.operations@,
            controls: self.controls@,
            resources: self.resources@,
        }
    }
}

/// Number that follows `n`; the largest is followed by zero.
pub open spec fn successor(n: u64) -> u64 {
    if n == u64::MAX {
        0
    } else {
        (n + 1) as u64
    }
}

/// Number of the entity after the one with number `n`. The last number is given out again.
pub open spec fn number_after(n: u64) -> u64 {
    if n == u64::MAX {
        n
    } else {
        (n + 1) as u64
    }
}

impl WorldView {
    /// The entity that the next spawn makes.
    pub open spec fn fresh(self) -> Entity {
        Entity(self.next)
    }

    /// The world once that entity was made.
    pub open spec fn reserved(self) -> WorldView {
        WorldView { next: number_after(self.next), ..self }
    }

    /// The world with one more report of progress.
    pub open spec fn progressed(self) -> WorldView {
        WorldView {
            resources: ResourcesView { epoch: successor(self.resources.epoch), ..self.resources },
            ..self
        }
    }

    /// The world with a run in the given state.
    pub open spec fn with_run_state(self, run: Entity, state: RunStateView) -> WorldView {
        WorldView {
            runs: RunsView { states: self.runs.states.insert(run, state), ..self.runs },
            ..self
        }
    }

    /// The world with the given record of a run.
    pub open spec fn with_run_record(self, run: Entity, record: RunRecordView) -> WorldView {
        WorldView {
            runs: RunsView { records: self.runs.records.insert(run, record), ..self.runs },
            ..self
        }
    }

    /// The world in which a run has failed.
    pub open spec fn with_failure(self, run: Entity, error: CanonicalErrorView) -> WorldView {
        self.with_run_state(run, RunStateView::Failed(error)).progressed()
    }

    /// The world with an operation in the given phase.
    pub open spec fn with_phase(self, operation: Entity, phase: OperationPhaseView) -> WorldView {
        WorldView {
            operations: OperationsView {
                states: self.operations.states.insert(
                    operation,
                    OperationStateView {
                        generation: self.operations.states[operation].generation,
                        phase,
                    },
                ),
                ..self.operations
            },
            ..self
        }
    }

    /// The world without an entity: its components are gone, and so is every relation to it.
    pub open spec fn without(self, e: Entity) -> WorldView {
        WorldView {
            stable_ids: self.stable_ids.remove(e),
            tenants: self.tenants.remove(e),
            domain: self.domain.without(e),
            runs: self.runs.without(e),
            operations: self.operations.without(e),
            controls: self.controls.without(e),
            ..self
        }
    }
}

/// Whether a run state is an outcome.
pub open spec fn terminal_state(state: RunStateView) -> bool {
    state is Completed || state is Failed || state is Cancelled
}

/// Whether a run state is an outcome.
pub fn is_terminal_state(state: &RunState) -> (r: bool)
    ensures
        r == terminal_state(state@),
{
    matches!(state, RunState::Completed(_) | RunState::Failed(_) | RunState::Cancelled)
}

impl RuntimeMetrics {
    /// Metrics that count nothing.
    pub open spec fn zero() -> RuntimeMetrics {
        RuntimeMetrics {
            active_runs: 0,
            completed_runs: 0,
            failed_runs: 0,
            cancelled_runs: 0,
            in_flight_operations: 0,
            prepared_operations: 0,
            settled_operations: 0,
            retired_tools: 0,
            dropped_subscribers: 0,
            unobserved_terminal_runs: 0,
        }
    }
}

impl Default for RuntimeMetrics {
    fn default() -> (r: Self)
        ensures
            r == RuntimeMetrics::zero(),
    {
        RuntimeMetrics {
            active_runs: 0,
            completed_runs: 0,
            failed_runs: 0,
            cancelled_runs: 0,
            in_flight_operations: 0,
            prepared_operations: 0,
            settled_operations: 0,
            retired_tools: 0,
            dropped_subscribers: 0,
            unobserved_terminal_runs: 0,
        }
    }
}

impl WorldView {
    /// A world without entities and without a runtime.
    pub open spec fn empty() -> WorldView {
        WorldView {
            next: 0,
            stable_ids: Map::empty(),
            tenants: Map::empty(),
            domain: DomainView::empty(),
            runs: RunsView::empty(),
            operations: OperationsView::empty(),
            controls: ControlsView::empty(),
            resources: ResourcesView {
                runtime: None,
                epoch: 0,
                tick: 0,
                effect_timeout_ticks: 0,
                index: Map::empty(),
                violations: Seq::empty(),
                metrics: RuntimeMetrics::zero(),
                messages: Seq::empty(),
            },
        }
    }
}

impl World {
    /// A world without entities and without a runtime.
    pub fn new() -> (r: Self)
        ensures
            r@ == WorldView::empty(),
    {
        let r = World {
            next: 0,
            stable_ids: Column::new(),
            tenants: Column::new(),
            domain: Domain::new(),
            runs: Runs::new(),
            operations: Operations::new(),
            controls: Controls::new(),
            resources: Resources {
                runtime: None,
                epoch: 0,
                tick: 0,
                effect_timeout_ticks: 0,
                index: TextMap::new(),
                violations: Vec::new(),
                metrics: RuntimeMetrics::default(),
                messages: Vec::new(),
            },
        };
        assert(r.resources.violations.deep_view() =~= Seq::empty());
        assert(r.resources.messages.deep_view() =~= Seq::empty());
        r
    }

    /// Makes an entity without components.
    pub fn reserve(&mut self) -> (e: Entity)
        ensures
            e == old(self)@.fresh(),
            final(self)@ == old(self)@.reserved(),
    {
        let e = Entity(self.next);
        self.next = self.next.saturating_add(1);
        e
    }

    /// Reports progress to the driver.
    pub fn mark_progress(&mut self)
        ensures
            final(self)@ == old(self)@.progressed(),
    {
        self.resources.epoch = self.resources.epoch.wrapping_add(1);
    }

    /// Sets the state of a run.
    pub fn set_run_state(&mut self, run: Entity, state: RunState)
        ensures
            final(self)@ == old(self)@.with_run_state(run, state@),
    {
        self.runs.states.insert(run, state);
    }

    /// Sets the record of a run.
    pub fn set_run_record(&mut self, run: Entity, record: RunRecord)
        ensures
            final(self)@ == old(self)@.with_run_record(run, record@),
    {
        self.runs.records.insert(run, record);
    }

    /// Ends a run with an error and reports progress.
    pub fn fail_run(&mut self, run: Entity, error: CanonicalError)
        ensures
            final(self)@ == old(self)@.with_failure(run, error@),
    {
        self.set_run_state(run, RunState::Failed(error));
        self.mark_progress();
    }

    /// Sets the phase of an operation.
    pub fn set_phase(&mut self, operation: Entity, phase: OperationPhase)
        requires
            old(self)@.operations.states.contains_key(operation),
        ensures
            final(self)@ == old(self)@.with_phase(operation, phase@),
    {
        if let Some(state) = self.operations.states.get(operation) {
            let generation: u64 = state.generation;
            self.operations.states.insert(operation, OperationState { generation, phase });
        }
    }

    /// Removes an entity: its components, and every relation that points at it.
    pub fn despawn(&mut self, e: Entity)
        ensures
            final(self)@ == old(self)@.without(e),
    {
        let _ = self.stable_ids.remove(e);
        let _ = self.tenants.remove(e);
        self.domain.despawn(e);
        self.runs.despawn(e);
        self.operations.despawn(e);
        self.controls.despawn(e);
    }
}

} // verus!
