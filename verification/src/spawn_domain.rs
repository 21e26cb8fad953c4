//! Configured entities that hosts make.

use vstd::prelude::*;

use crate::capability::{
    Agent, AgentView, DiscoveryKey, DiscoveryKeyView, ModelCapability, ModelCapabilityView,
    OutputRequirement, Policy, PolicyView, RetrievalRequirement, StoreCapability,
    StoreCapabilityView, StoreGrant, ToolCapability, ToolCapabilityView, ToolGrant,
};
use crate::column::Entity;
use crate::identity::{StableId, TenantId};
use crate::run::{DiscoverySource, DiscoverySourceView};
use crate::world::{DomainView, World, WorldView};

verus! {

impl WorldView {
    /// The world with one more entity that has an identity and a tenant.
    pub open spec fn with_identity(self, id: Seq<char>, tenant: Seq<char>) -> WorldView {
        let e = self.fresh();
        WorldView {
            stable_ids: self.stable_ids.insert(e, id),
            tenants: self.tenants.insert(e, tenant),
            ..self.reserved()
        }
    }

    /// The world with one more model.
    pub open spec fn with_model(
        self,
        id: Seq<char>,
        tenant: Seq<char>,
        model: ModelCapabilityView,
    ) -> WorldView {
        WorldView {
            domain: DomainView {
                models: self.domain.models.insert(self.fresh(), model),
                ..self.domain
            },
            ..self.with_identity(id, tenant)
        }
    }

    /// The world with one more agent.
    pub open spec fn with_agent(
        self,
        id: Seq<char>,
        tenant: Seq<char>,
        agent: AgentView,
        model: Entity,
    ) -> WorldView {
        WorldView {
            domain: DomainView {
                agents: self.domain.agents.insert(self.fresh(), agent),
                uses_model: self.domain.uses_model.insert(self.fresh(), model),
                ..self.domain
            },
            ..self.with_identity(id, tenant)
        }
    }

    /// The world in which an agent has a structured-output requirement, if one is given.
    pub open spec fn with_output_requirement(
        self,
        agent: Entity,
        requirement: Option<OutputRequirement>,
    ) -> WorldView {
        match requirement {
            Some(requirement) => WorldView {
                domain: DomainView {
                    output_requirements: self.domain.output_requirements.insert(agent, requirement),
                    ..self.domain
                },
                ..self
            },
            None => self,
        }
    }

    /// The world in which an agent has a retrieval requirement, if one is given.
    pub open spec fn with_retrieval_requirement(
        self,
        agent: Entity,
        requirement: Option<RetrievalRequirement>,
    ) -> WorldView {
        match requirement {
            Some(requirement) => WorldView {
                domain: DomainView {
                    retrieval_requirements: self.domain.retrieval_requirements.insert(
                        agent,
                        requirement,
                    ),
                    ..self.domain
                },
                ..self
            },
            None => self,
        }
    }

    /// The world with one more policy.
    pub open spec fn with_policy(
        self,
        id: Seq<char>,
        tenant: Seq<char>,
        policy: PolicyView,
        agent: Entity,
    ) -> WorldView {
        WorldView {
            domain: DomainView {
                policies: self.domain.policies.insert(self.fresh(), policy),
                policy_for: self.domain.policy_for.insert(self.fresh(), agent),
                ..self.domain
            },
            ..self.with_identity(id, tenant)
        }
    }

    /// The world with one more tool.
    pub open spec fn with_tool(
        self,
        id: Seq<char>,
        tenant: Seq<char>,
        tool: ToolCapabilityView,
    ) -> WorldView {
        WorldView {
            domain: DomainView {
                tools: self.domain.tools.insert(self.fresh(), tool),
                ..self.domain
            },
            ..self.with_identity(id, tenant)
        }
    }

    /// The world with one more tool that a discovery source made known.
    pub open spec fn with_discovered_tool(
        self,
        id: Seq<char>,
        tenant: Seq<char>,
        tool: ToolCapabilityView,
        source: Entity,
        key: Seq<char>,
    ) -> WorldView {
        WorldView {
            domain: DomainView {
                tools: self.domain.tools.insert(self.fresh(), tool),
                discovered_from: self.domain.discovered_from.insert(self.fresh(), source),
                discovery_keys: self.domain.discovery_keys.insert(
                    self.fresh(),
                    DiscoveryKeyView(key),
                ),
                ..self.domain
            },
            ..self.with_identity(id, tenant)
        }
    }

    /// The world with one more tool grant.
    pub open spec fn with_tool_grant(
        self,
        id: Seq<char>,
        tenant: Seq<char>,
        grant: ToolGrant,
        agent: Entity,
        tool: Entity,
    ) -> WorldView {
        WorldView {
            domain: DomainView {
                tool_grants: self.domain.tool_grants.insert(self.fresh(), grant),
                grant_for_agent: self.domain.grant_for_agent.insert(self.fresh(), agent),
                grant_for_tool: self.domain.grant_for_tool.insert(self.fresh(), tool),
                ..self.domain
            },
            ..self.with_identity(id, tenant)
        }
    }

    /// The world with one more store.
    pub open spec fn with_store(
        self,
        id: Seq<char>,
        tenant: Seq<char>,
        store: StoreCapabilityView,
    ) -> WorldView {
        WorldView {
            domain: DomainView {
                stores: self.domain.stores.insert(self.fresh(), store),
                ..self.domain
            },
            ..self.with_identity(id, tenant)
        }
    }

    /// The world with one more store grant.
    pub open spec fn with_store_grant(
        self,
        id: Seq<char>,
        tenant: Seq<char>,
        grant: StoreGrant,
        agent: Entity,
        store: Entity,
    ) -> WorldView {
        WorldView {
            domain: DomainView {
                store_grants: self.domain.store_grants.insert(self.fresh(), grant),
                store_grant_for_agent: self.domain.store_grant_for_agent.insert(
                    self.fresh(),
                    agent,
                ),
                store_grant_for_store: self.domain.store_grant_for_store.insert(
                    self.fresh(),
                    store,
                ),
                ..self.domain
            },
            ..self.with_identity(id, tenant)
        }
    }

    /// The world with one more discovery source.
    pub open spec fn with_source(
        self,
        id: Seq<char>,
        tenant: Seq<char>,
        source: DiscoverySourceView,
    ) -> WorldView {
        WorldView {
            domain: DomainView {
                sources: self.domain.sources.insert(self.fresh(), source),
                ..self.domain
            },
            ..self.with_identity(id, tenant)
        }
    }
}

impl World {
    fn spawn_identity(&mut self, id: StableId, tenant: TenantId) -> (e: Entity)
        ensures
            e == old(self)@.fresh(),
            final(self)@ == old(self)@.with_identity(id@, tenant@),
    {
        let e = self.reserve();
        self.stable_ids.insert(e, id);
        self.tenants.insert(e, tenant);
        e
    }

    /// Makes a model.
    pub fn spawn_model(&mut self, id: StableId, tenant: TenantId, model: ModelCapability) -> (e:
        Entity)
        ensures
            e == old(self)@.fresh(),
            final(self)@ == old(self)@.with_model(id@, tenant@, model@),
    {
        let e = self.spawn_identity(id, tenant);
        self.domain.models.insert(e, model);
        e
    }

    /// Makes an agent that uses a model.
    pub fn spawn_agent(&mut self, id: StableId, tenant: TenantId, agent: Agent, model: Entity) -> (e:
        Entity)
        ensures
            e == old(self)@.fresh(),
            final(self)@ == old(self)@.with_agent(id@, tenant@, agent@, model),
    {
        let e = self.spawn_identity(id, tenant);
        self.domain.agents.insert(e, agent);
        self.domain.uses_model.insert(e, model);
        e
    }

    /// Gives an agent a structured-output requirement, if one is given.
    pub fn require_output(&mut self, agent: Entity, requirement: Option<OutputRequirement>)
        ensures
            final(self)@ == old(self)@.with_output_requirement(agent, requirement),
    {
        if let Some(requirement) = requirement {
            self.domain.output_requirements.insert(agent, requirement);
        }
    }

    /// Gives an agent a retrieval requirement, if one is given.
    pub fn require_retrieval(&mut self, agent: Entity, requirement: Option<RetrievalRequirement>)
        ensures
            final(self)@ == old(self)@.with_retrieval_requirement(agent, requirement),
    {
        if let Some(requirement) = requirement {
            self.domain.retrieval_requirements.insert(agent, requirement);
        }
    }

    /// Makes a policy that governs an agent.
    pub fn spawn_policy(
        &mut self,
        id: StableId,
        tenant: TenantId,
        policy: Policy,
        agent: Entity,
    ) -> (e: Entity)
        ensures
            e == old(self)@.fresh(),
            final(self)@ == old(self)@.with_policy(id@, tenant@, policy@, agent),
    {
        let e = self.spawn_identity(id, tenant);
        self.domain.policies.insert(e, policy);
        self.domain.policy_for.insert(e, agent);
        e
    }

    /// Makes a tool.
    pub fn spawn_tool(&mut self, id: StableId, tenant: TenantId, tool: ToolCapability) -> (e: Entity)
        ensures
            e == old(self)@.fresh(),
            final(self)@ == old(self)@.with_tool(id@, tenant@, tool@),
    {
        let e = self.spawn_identity(id, tenant);
        self.domain.tools.insert(e, tool);
        e
    }

    /// Makes a tool that a discovery source made known.
    pub fn spawn_discovered_tool(
        &mut self,
        id: StableId,
        tenant: TenantId,
        tool: ToolCapability,
        source: Entity,
        key: String,
    ) -> (e: Entity)
        ensures
            e == old(self)@.fresh(),
            final(self)@ == old(self)@.with_discovered_tool(id@, tenant@, tool@, source, key@),
    {
        let e = self.spawn_identity(id, tenant);
        self.domain.tools.insert(e, tool);
        self.domain.discovered_from.insert(e, source);
        self.domain.discovery_keys.insert(e, DiscoveryKey(key));
        e
    }

    /// Makes a tool grant.
    pub fn spawn_tool_grant(
        &mut self,
        id: StableId,
        tenant: TenantId,
        grant: ToolGrant,
        agent: Entity,
        tool: Entity,
    ) -> (e: Entity)
        ensures
            e == old(self)@.fresh(),
            final(self)@ == old(self)@.with_tool_grant(id@, tenant@, grant, agent, tool),
    {
        let e = self.spawn_identity(id, tenant);
        self.domain.tool_grants.insert(e, grant);
        self.domain.grant_for_agent.insert(e, agent);
        self.domain.grant_for_tool.insert(e, tool);
        e
    }

    /// Makes a store.
    pub fn spawn_store(&mut self, id: StableId, tenant: TenantId, store: StoreCapability) -> (e:
        Entity)
        ensures
            e == old(self)@.fresh(),
            final(self)@ == old(self)@.with_store(id@, tenant@, store@),
    {
        let e = self.spawn_identity(id, tenant);
        self.domain.stores.insert(e, store);
        e
    }

    /// Makes a store grant.
    pub fn spawn_store_grant(
        &mut self,
        id: StableId,
        tenant: TenantId,
        grant: StoreGrant,
        agent: Entity,
        store: Entity,
    ) -> (e: Entity)
        ensures
            e == old(self)@.fresh(),
            final(self)@ == old(self)@.with_store_grant(id@, tenant@, grant, agent, store),
    {
        let e = self.spawn_identity(id, tenant);
        self.domain.store_grants.insert(e, grant);
        self.domain.store_grant_for_agent.insert(e, agent);
        self.domain.store_grant_for_store.insert(e, store);
        e
    }

    /// Makes a discovery source.
    pub fn spawn_source(&mut self, id: StableId, tenant: TenantId, source: DiscoverySource) -> (e:
        Entity)
        ensures
            e == old(self)@.fresh(),
            final(self)@ == old(self)@.with_source(id@, tenant@, source@),
    {
        let e = self.spawn_identity(id, tenant);
        self.domain.sources.insert(e, source);
        e
    }
}

} // verus!
