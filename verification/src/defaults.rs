//! Default values, and what handles and requests give access to.

use vstd::prelude::*;

use crate::capability::{AcceptedPolicies, AcceptedPoliciesView, Agent, AgentView};
use crate::column::Entity;
use crate::effect::{
    DiscoveryEffectInput, EffectInput, EffectInputView, EffectRequest, ModelEffectInput,
    StoreEffectInput, ToolEffectInput, Usage,
};
use crate::identity::StableId;
use crate::persisted::{DomainSnapshot, DomainSnapshotView};
use crate::run::{
    AgentHandle, DiscoveryHandle, ModelStreamState, PendingRunHandle, RunHandle, RuntimeConfig,
};

verus! {

impl RuntimeConfig {
    /// The default configuration.
    pub open spec fn standard() -> RuntimeConfig {
        RuntimeConfig {
            command_capacity: 256,
            effect_capacity: 256,
            completion_capacity: 256,
            subscriber_capacity: 64,
            progress_limit: 1024,
            effect_timeout_ticks: 1024,
        }
    }
}

impl Default for RuntimeConfig {
    fn default() -> (r: Self)
        ensures
            r == RuntimeConfig::standard(),
    {
        RuntimeConfig {
            command_capacity: 256,
            effect_capacity: 256,
            completion_capacity: 256,
            subscriber_capacity: 64,
            progress_limit: 1024,
            effect_timeout_ticks: 1024,
        }
    }
}

impl Default for Agent {
    fn default() -> (r: Self)
        ensures
            r@ == (AgentView {
                name: None,
                description: None,
                instructions: Seq::empty(),
                temperature_bits: None,
                max_tokens: None,
                tool_choice: None,
                additional_params: None,
                documents: Seq::empty(),
                max_model_calls: 16,
                terminal_tool: None,
            }),
    {
        let r = Agent {
            name: None,
            description: None,
            instructions: String::new(),
            temperature_bits: None,
            max_tokens: None,
            tool_choice: None,
            additional_params: None,
            documents: Vec::new(),
            max_model_calls: 16,
            terminal_tool: None,
        };
        assert(r.documents.deep_view() =~= Seq::empty());
        r
    }
}

impl Default for Usage {
    fn default() -> (r: Self)
        ensures
            r == (Usage { input_tokens: 0, output_tokens: 0 }),
    {
        Usage { input_tokens: 0, output_tokens: 0 }
    }
}

impl Default for ModelStreamState {
    fn default() -> (r: Self)
        ensures
            r == (ModelStreamState { next_sequence: 0 }),
    {
        ModelStreamState { next_sequence: 0 }
    }
}

impl Default for AcceptedPolicies {
    fn default() -> (r: Self)
        ensures
            r@ == AcceptedPoliciesView(Seq::empty()),
    {
        let r = AcceptedPolicies(Vec::new());
        assert(r.0.deep_view() =~= Seq::empty());
        r
    }
}

impl Default for DomainSnapshot {
    fn default() -> (r: Self)
        ensures
            r@ == (DomainSnapshotView {
                discovery_sources: Seq::empty(),
                models: Seq::empty(),
                agents: Seq::empty(),
                policies: Seq::empty(),
                tools: Seq::empty(),
                tool_grants: Seq::empty(),
                stores: Seq::empty(),
                store_grants: Seq::empty(),
            }),
    {
        let r = DomainSnapshot {
            discovery_sources: Vec::new(),
            models: Vec::new(),
            agents: Vec::new(),
            policies: Vec::new(),
            tools: Vec::new(),
            tool_grants: Vec::new(),
            stores: Vec::new(),
            store_grants: Vec::new(),
        };
        proof {
            assert(r.discovery_sources.deep_view() =~= Seq::empty());
            assert(r.models.deep_view() =~= Seq::empty());
            assert(r.agents.deep_view() =~= Seq::empty());
            assert(r.policies.deep_view() =~= Seq::empty());
            assert(r.tools.deep_view() =~= Seq::empty());
            assert(r.tool_grants.deep_view() =~= Seq::empty());
            assert(r.stores.deep_view() =~= Seq::empty());
            assert(r.store_grants.deep_view() =~= Seq::empty());
        }
        r
    }
}

impl EffectRequest {
    /// Returns model input when this is a model operation.
    pub fn model_input(&self) -> (r: Option<&ModelEffectInput>)
        ensures
            match r {
                Some(input) => self@.input == EffectInputView::Model(input@),
                None => !(self@.input is Model),
            },
    {
        match &self.input {
            EffectInput::Model(input) => Some(input),
            _ => None,
        }
    }

    /// Returns tool input when this is a tool operation.
    pub fn tool_input(&self) -> (r: Option<&ToolEffectInput>)
        ensures
            match r {
                Some(input) => self@.input == EffectInputView::Tool(input@),
                None => !(self@.input is Tool),
            },
    {
        match &self.input {
            EffectInput::Tool(input) => Some(input),
            _ => None,
        }
    }

    /// Returns discovery input when this is a refresh operation.
    pub fn discovery_input(&self) -> (r: Option<&DiscoveryEffectInput>)
        ensures
            match r {
                Some(input) => self@.input == EffectInputView::Discovery(input@),
                None => !(self@.input is Discovery),
            },
    {
        match &self.input {
            EffectInput::Discovery(input) => Some(input),
            _ => None,
        }
    }

    /// Returns store input when this is a memory/store operation.
    pub fn store_input(&self) -> (r: Option<&StoreEffectInput>)
        ensures
            match r {
                Some(input) => self@.input == EffectInputView::Store(input@),
                None => !(self@.input is Store),
            },
    {
        match &self.input {
            EffectInput::Store(input) => Some(input),
            _ => None,
        }
    }
}

impl AgentHandle {
    /// Underlying entity.
    pub fn entity(self) -> (r: Entity)
        ensures
            r == self.entity,
    {
        self.entity
    }
}

impl DiscoveryHandle {
    /// Underlying entity.
    pub fn entity(self) -> (r: Entity)
        ensures
            r == self.entity,
    {
        self.entity
    }
}

impl RunHandle {
    /// Underlying entity.
    pub fn entity(self) -> (r: Entity)
        ensures
            r == self.entity,
    {
        self.entity
    }
}

impl PendingRunHandle {
    /// Persistent run identity.
    pub fn stable_id(&self) -> (r: &StableId)
        ensures
            *r == self.stable_id,
    {
        &self.stable_id
    }
}

} // verus!
