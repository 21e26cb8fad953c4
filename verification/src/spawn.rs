//! Entities that the schedule makes.

use vstd::prelude::*;

use crate::capability::{AcceptedPolicies, AcceptedPoliciesView, PolicyProgress};
use crate::column::Entity;
use crate::effect::{
    DiscoveryEffectInput, DiscoveryEffectInputView, ModelEffectInput, ModelEffectInputView,
    OperationKind, OperationPhase, OperationPhaseView, OperationState, OperationStateView,
    StoreEffectInput, StoreEffectInputView, ToolEffectInput, ToolEffectInputView,
};
use crate::identity::{StableId, TenantId};
use crate::run::{
    CommittedTurn, CommittedTurnView, ModelStreamState, RunRecord, RunRecordView, RunState,
    RunStateView, SubscriptionState, ToolBatchState,
};
use crate::world::{OperationsView, RunsView, World, WorldView};

verus! {

/// State of an operation that has not entered the effect queue yet.
pub open spec fn prepared(generation: u64) -> OperationStateView {
    OperationStateView { generation, phase: OperationPhaseView::Prepared }
}

impl WorldView {
    /// The world with one more run of an agent.
    pub open spec fn with_run(
        self,
        run_id: Seq<char>,
        tenant: Seq<char>,
        agent: Entity,
        record: RunRecordView,
    ) -> WorldView {
        let e = self.fresh();
        WorldView {
            stable_ids: self.stable_ids.insert(e, run_id),
            tenants: self.tenants.insert(e, tenant),
            runs: RunsView {
                run_of: self.runs.run_of.insert(e, agent),
                states: self.runs.states.insert(e, RunStateView::Queued),
                records: self.runs.records.insert(e, record),
                ..self.runs
            },
            ..self.reserved()
        }
    }

    /// The world with one more run that belongs to no agent and is in the given state.
    pub open spec fn with_orphan_run(
        self,
        run_id: Seq<char>,
        state: RunStateView,
        record: RunRecordView,
    ) -> WorldView {
        let e = self.fresh();
        WorldView {
            stable_ids: self.stable_ids.insert(e, run_id),
            runs: RunsView {
                states: self.runs.states.insert(e, state),
                records: self.runs.records.insert(e, record),
                ..self.runs
            },
            ..self.reserved()
        }
    }

    /// The world with one more active subscription of a run.
    pub open spec fn with_subscription(self, run: Entity, sink: u64) -> WorldView {
        let e = self.fresh();
        WorldView {
            runs: RunsView {
                subscriptions: self.runs.subscriptions.insert(e, SubscriptionState::Active),
                subscription_of: self.runs.subscription_of.insert(e, run),
                sinks: self.runs.sinks.insert(e, sink),
                ..self.runs
            },
            ..self.reserved()
        }
    }

    /// The world with one more committed turn of a run.
    pub open spec fn with_turn(self, run: Entity, turn: CommittedTurnView) -> WorldView {
        let e = self.fresh();
        WorldView {
            runs: RunsView {
                turns: self.runs.turns.insert(e, turn),
                turn_of: self.runs.turn_of.insert(e, run),
                ..self.runs
            },
            ..self.reserved()
        }
    }

    /// The world with one more prepared model operation of a run.
    pub open spec fn with_model_operation(
        self,
        run: Entity,
        input: ModelEffectInputView,
        accepted: AcceptedPoliciesView,
        status: PolicyProgress,
    ) -> WorldView {
        let e = self.fresh();
        WorldView {
            operations: OperationsView {
                kinds: self.operations.kinds.insert(e, OperationKind::Model),
                states: self.operations.states.insert(e, prepared(0)),
                operation_of: self.operations.operation_of.insert(e, run),
                model_inputs: self.operations.model_inputs.insert(e, input),
                model_decisions: self.operations.model_decisions.insert(e, input.decision),
                stream_states: self.operations.stream_states.insert(
                    e,
                    ModelStreamState { next_sequence: 0 },
                ),
                accepted_policies: self.operations.accepted_policies.insert(e, accepted),
                policy_progress: self.operations.policy_progress.insert(e, status),
                ..self.operations
            },
            ..self.reserved()
        }
    }

    /// The world with one more prepared store operation of a run.
    pub open spec fn with_store_operation(
        self,
        run: Entity,
        input: StoreEffectInputView,
    ) -> WorldView {
        let e = self.fresh();
        WorldView {
            operations: OperationsView {
                kinds: self.operations.kinds.insert(e, OperationKind::Store),
                states: self.operations.states.insert(e, prepared(0)),
                operation_of: self.operations.operation_of.insert(e, run),
                store_inputs: self.operations.store_inputs.insert(e, input),
                ..self.operations
            },
            ..self.reserved()
        }
    }

    /// The world with one more tool batch of a run.
    pub open spec fn with_batch(self, run: Entity, batch: ToolBatchState) -> WorldView {
        let e = self.fresh();
        WorldView {
            operations: OperationsView {
                batches: self.operations.batches.insert(e, batch),
                batch_of: self.operations.batch_of.insert(e, run),
                ..self.operations
            },
            ..self.reserved()
        }
    }

    /// The world with one more prepared tool operation of a batch.
    pub open spec fn with_tool_operation(
        self,
        run: Entity,
        batch: Entity,
        input: ToolEffectInputView,
    ) -> WorldView {
        let e = self.fresh();
        WorldView {
            operations: OperationsView {
                kinds: self.operations.kinds.insert(e, OperationKind::Tool),
                states: self.operations.states.insert(e, prepared(0)),
                operation_of: self.operations.operation_of.insert(e, run),
                operation_of_batch: self.operations.operation_of_batch.insert(e, batch),
                tool_inputs: self.operations.tool_inputs.insert(e, input),
                ..self.operations
            },
            ..self.reserved()
        }
    }

    /// The world with one more prepared discovery operation of a source.
    pub open spec fn with_discovery_operation(
        self,
        source: Entity,
        input: DiscoveryEffectInputView,
    ) -> WorldView {
        let e = self.fresh();
        WorldView {
            operations: OperationsView {
                kinds: self.operations.kinds.insert(e, OperationKind::Discovery),
                states: self.operations.states.insert(e, prepared(input.generation)),
                discovery_operation_of: self.operations.discovery_operation_of.insert(e, source),
                discovery_inputs: self.operations.discovery_inputs.insert(e, input),
                ..self.operations
            },
            ..self.reserved()
        }
    }
}

impl World {
    /// Makes a queued run of an agent.
    pub fn spawn_run(
        &mut self,
        run_id: StableId,
        tenant: TenantId,
        agent: Entity,
        record: RunRecord,
    ) -> (e: Entity)
        ensures
            e == old(self)@.fresh(),
            final(self)@ == old(self)@.with_run(run_id@, tenant@, agent, record@),
    {
        let e = self.reserve();
        self.stable_ids.insert(e, run_id);
        self.tenants.insert(e, tenant);
        self.runs.run_of.insert(e, agent);
        self.runs.states.insert(e, RunState::Queued);
        self.runs.records.insert(e, record);
        e
    }

    /// Makes a run that belongs to no agent.
    pub fn spawn_orphan_run(&mut self, run_id: StableId, state: RunState, record: RunRecord) -> (e:
        Entity)
        ensures
            e == old(self)@.fresh(),
            final(self)@ == old(self)@.with_orphan_run(run_id@, state@, record@),
    {
        let e = self.reserve();
        self.stable_ids.insert(e, run_id);
        self.runs.states.insert(e, state);
        self.runs.records.insert(e, record);
        e
    }

    /// Makes an active subscription of a run.
    pub fn spawn_subscription(&mut self, run: Entity, sink: u64) -> (e: Entity)
        ensures
            e == old(self)@.fresh(),
            final(self)@ == old(self)@.with_subscription(run, sink),
    {
        let e = self.reserve();
        self.runs.subscriptions.insert(e, SubscriptionState::Active);
        self.runs.subscription_of.insert(e, run);
        self.runs.sinks.insert(e, sink);
        e
    }

    /// Makes a committed turn of a run.
    pub fn spawn_turn(&mut self, run: Entity, turn: CommittedTurn) -> (e: Entity)
        ensures
            e == old(self)@.fresh(),
            final(self)@ == old(self)@.with_turn(run, turn@),
    {
        let e = self.reserve();
        self.runs.turns.insert(e, turn);
        self.runs.turn_of.insert(e, run);
        e
    }

    /// Makes a prepared model operation of a run.
    pub fn spawn_model_operation(
        &mut self,
        run: Entity,
        input: ModelEffectInput,
        accepted: AcceptedPolicies,
        status: PolicyProgress,
    ) -> (e: Entity)
        ensures
            e == old(self)@.fresh(),
            final(self)@ == old(self)@.with_model_operation(run, input@, accepted@, status),
    {
        let e = self.reserve();
        self.operations.kinds.insert(e, OperationKind::Model);
        self.operations.states.insert(
            e,
            OperationState { generation: 0, phase: OperationPhase::Prepared },
        );
        self.operations.operation_of.insert(e, run);
        self.operations.model_decisions.insert(e, input.decision.clone());
        self.operations.model_inputs.insert(e, input);
        self.operations.stream_states.insert(e, ModelStreamState { next_sequence: 0 });
        self.operations.accepted_policies.insert(e, accepted);
        self.operations.policy_progress.insert(e, status);
        e
    }

    /// Makes a prepared store operation of a run.
    pub fn spawn_store_operation(&mut self, run: Entity, input: StoreEffectInput) -> (e: Entity)
        ensures
            e == old(self)@.fresh(),
            final(self)@ == old(self)@.with_store_operation(run, input@),
    {
        let e = self.reserve();
        self.operations.kinds.insert(e, OperationKind::Store);
        self.operations.states.insert(
            e,
            OperationState { generation: 0, phase: OperationPhase::Prepared },
        );
        self.operations.operation_of.insert(e, run);
        self.operations.store_inputs.insert(e, input);
        e
    }

    /// Makes a tool batch of a run.
    pub fn spawn_batch(&mut self, run: Entity, batch: ToolBatchState) -> (e: Entity)
        ensures
            e == old(self)@.fresh(),
            final(self)@ == old(self)@.with_batch(run, batch),
    {
        let e = self.reserve();
        self.operations.batches.insert(e, batch);
        self.operations.batch_of.insert(e, run);
        e
    }

    /// Makes a prepared tool operation of a batch.
    pub fn spawn_tool_operation(&mut self, run: Entity, batch: Entity, input: ToolEffectInput) -> (e:
        Entity)
        ensures
            e == old(self)@.fresh(),
            final(self)@ == old(self)@.with_tool_operation(run, batch, input@),
    {
        let e = self.reserve();
        self.operations.kinds.insert(e, OperationKind::Tool);
        self.operations.states.insert(
            e,
            OperationState { generation: 0, phase: OperationPhase::Prepared },
        );
        self.operations.operation_of.insert(e, run);
        self.operations.operation_of_batch.insert(e, batch);
        self.operations.tool_inputs.insert(e, input);
        e
    }

    /// Makes a prepared discovery operation of a source.
    pub fn spawn_discovery_operation(&mut self, source: Entity, input: DiscoveryEffectInput) -> (e:
        Entity)
        ensures
            e == old(self)@.fresh(),
            final(self)@ == old(self)@.with_discovery_operation(source, input@),
    {
        let e = self.reserve();
        self.operations.kinds.insert(e, OperationKind::Discovery);
        self.operations.states.insert(
            e,
            OperationState { generation: input.generation, phase: OperationPhase::Prepared },
        );
        self.operations.discovery_operation_of.insert(e, source);
        self.operations.discovery_inputs.insert(e, input);
        e
    }
}

} // verus!
