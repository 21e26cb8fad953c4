//! Persistence records of the domain.

use vstd::prelude::*;

use crate::capability::{
    Agent, AgentView, ModelCapability, ModelCapabilityView, OutputRequirement, Policy, PolicyView,
    RetrievalRequirement, StoreCapability, StoreCapabilityView, StoreGrant, ToolCapability,
    ToolCapabilityView, ToolGrant,
};
use crate::identity::{StableId, TenantId};

verus! {

/// Persisted discovery source configuration without runtime operation handles.
#[derive(Debug, PartialEq, Eq)]
pub struct PersistedDiscoverySource {
    /// Persistent identity.
    pub id: StableId,
    /// Tenant scope.
    pub tenant: TenantId,
    /// External discovery adapter kind.
    pub kind: String,
    /// Last accepted refresh generation.
    pub generation: u64,
}

/// What a [`PersistedDiscoverySource`] holds.
#[verifier::ext_equal]
pub struct PersistedDiscoverySourceView {
    pub id: Seq<char>,
    pub tenant: Seq<char>,
    pub kind: Seq<char>,
    pub generation: u64,
}

impl View for PersistedDiscoverySource {
    type V = PersistedDiscoverySourceView;

    open spec fn view(&self) -> PersistedDiscoverySourceView {
        PersistedDiscoverySourceView {
            id: self.id@,
            tenant: self.tenant@,
            kind: self.kind@,
            generation: self.generation,
        }
    }
}

impl DeepView for PersistedDiscoverySource {
    type V = PersistedDiscoverySourceView;

    open spec fn deep_view(&self) -> PersistedDiscoverySourceView {
        self.view()
    }
}

impl Clone for PersistedDiscoverySource {
    fn clone(&self) -> (r: Self)
        ensures
            r@ == self@,
    {
        PersistedDiscoverySource {
            id: self.id.clone(),
            tenant: self.tenant.clone(),
            kind: self.kind.clone(),
            generation: self.generation,
        }
    }
}

/// Persisted model record.
#[derive(Debug, PartialEq, Eq)]
pub struct PersistedModel {
    /// Persistent identity.
    pub id: StableId,
    /// Tenant scope.
    pub tenant: TenantId,
    /// Canonical model configuration.
    pub capability: ModelCapability,
}

/// What a [`PersistedModel`] holds.
#[verifier::ext_equal]
pub struct PersistedModelView {
    pub id: Seq<char>,
    pub tenant: Seq<char>,
    pub capability: ModelCapabilityView,
}

impl View for PersistedModel {
    type V = PersistedModelView;

    open spec fn view(&self) -> PersistedModelView {
        PersistedModelView {
            id: self.id@,
            tenant: self.tenant@,
            capability: self.capability@,
        }
    }
}

impl DeepView for PersistedModel {
    type V = PersistedModelView;

    open spec fn deep_view(&self) -> PersistedModelView {
        self.view()
    }
}

impl Clone for PersistedModel {
    fn clone(&self) -> (r: Self)
        ensures
            r@ == self@,
    {
        PersistedModel {
            id: self.id.clone(),
            tenant: self.tenant.clone(),
            capability: self.capability.clone(),
        }
    }
}

/// Persisted agent record.
#[derive(Debug, PartialEq, Eq)]
pub struct PersistedAgent {
    /// Persistent identity.
    pub id: StableId,
    /// Tenant scope.
    pub tenant: TenantId,
    /// Canonical agent configuration.
    pub agent: Agent,
    /// Stable model identity remapped during loading.
    pub model_id: StableId,
    /// Optional structured-output configuration.
    pub output_requirement: Option<OutputRequirement>,
    /// Optional vector retrieval configuration.
    pub retrieval_requirement: Option<RetrievalRequirement>,
}

/// What a [`PersistedAgent`] holds.
#[verifier::ext_equal]
pub struct PersistedAgentView {
    pub id: Seq<char>,
    pub tenant: Seq<char>,
    pub agent: AgentView,
    pub model_id: Seq<char>,
    pub output_requirement: Option<OutputRequirement>,
    pub retrieval_requirement: Option<RetrievalRequirement>,
}

impl View for PersistedAgent {
    type V = PersistedAgentView;

    open spec fn view(&self) -> PersistedAgentView {
        PersistedAgentView {
            id: self.id@,
            tenant: self.tenant@,
            agent: self.agent@,
            model_id: self.model_id@,
            output_requirement: self.output_requirement,
            retrieval_requirement: self.retrieval_requirement,
        }
    }
}

impl DeepView for PersistedAgent {
    type V = PersistedAgentView;

    open spec fn deep_view(&self) -> PersistedAgentView {
        self.view()
    }
}

impl Clone for PersistedAgent {
    fn clone(&self) -> (r: Self)
        ensures
            r@ == self@,
    {
        PersistedAgent {
            id: self.id.clone(),
            tenant: self.tenant.clone(),
            agent: self.agent.clone(),
            model_id: self.model_id.clone(),
            output_requirement: self.output_requirement.clone(),
            retrieval_requirement: self.retrieval_requirement,
        }
    }
}

/// Persisted policy record.
#[derive(Debug, PartialEq, Eq)]
pub struct PersistedPolicy {
    /// Persistent identity.
    pub id: StableId,
    /// Tenant scope.
    pub tenant: TenantId,
    /// Canonical policy data.
    pub policy: Policy,
    /// Stable agent identity remapped during loading.
    pub agent_id: StableId,
}

/// What a [`PersistedPolicy`] holds.
#[verifier::ext_equal]
pub struct PersistedPolicyView {
    pub id: Seq<char>,
    pub tenant: Seq<char>,
    pub policy: PolicyView,
    pub agent_id: Seq<char>,
}

impl View for PersistedPolicy {
    type V = PersistedPolicyView;

    open spec fn view(&self) -> PersistedPolicyView {
        PersistedPolicyView {
            id: self.id@,
            tenant: self.tenant@,
            policy: self.policy@,
            agent_id: self.agent_id@,
        }
    }
}

impl DeepView for PersistedPolicy {
    type V = PersistedPolicyView;

    open spec fn deep_view(&self) -> PersistedPolicyView {
        self.view()
    }
}

impl Clone for PersistedPolicy {
    fn clone(&self) -> (r: Self)
        ensures
            r@ == self@,
    {
        PersistedPolicy {
            id: self.id.clone(),
            tenant: self.tenant.clone(),
            policy: self.policy.clone(),
            agent_id: self.agent_id.clone(),
        }
    }
}

/// Persisted tool capability record.
#[derive(Debug, PartialEq, Eq)]
pub struct PersistedTool {
    /// Persistent identity.
    pub id: StableId,
    /// Tenant scope.
    pub tenant: TenantId,
    /// Provider-facing capability metadata.
    pub capability: ToolCapability,
    /// Stable discovery source identity for dynamically discovered versions.
    pub source_id: Option<StableId>,
    /// Source-local capability key, present exactly when `source_id` is present.
    pub discovery_key: Option<String>,
}

/// What a [`PersistedTool`] holds.
#[verifier::ext_equal]
pub struct PersistedToolView {
    pub id: Seq<char>,
    pub tenant: Seq<char>,
    pub capability: ToolCapabilityView,
    pub source_id: Option<Seq<char>>,
    pub discovery_key: Option<Seq<char>>,
}

impl View for PersistedTool {
    type V = PersistedToolView;

    open spec fn view(&self) -> PersistedToolView {
        PersistedToolView {
            id: self.id@,
            tenant: self.tenant@,
            capability: self.capability@,
            source_id: self.source_id.deep_view(),
            discovery_key: self.discovery_key.deep_view(),
        }
    }
}

impl DeepView for PersistedTool {
    type V = PersistedToolView;

    open spec fn deep_view(&self) -> PersistedToolView {
        self.view()
    }
}

impl Clone for PersistedTool {
    fn clone(&self) -> (r: Self)
        ensures
            r@ == self@,
    {
        let r = PersistedTool {
            id: self.id.clone(),
            tenant: self.tenant.clone(),
            capability: self.capability.clone(),
            source_id: self.source_id.clone(),
            discovery_key: self.discovery_key.clone(),
        };
        assert(r.source_id.deep_view() =~= self.source_id.deep_view());
        assert(r.discovery_key.deep_view() =~= self.discovery_key.deep_view());
        r
    }
}

/// Persisted agent-to-tool grant record.
#[derive(Debug, PartialEq, Eq)]
pub struct PersistedToolGrant {
    /// Persistent grant identity.
    pub id: StableId,
    /// Tenant scope.
    pub tenant: TenantId,
    /// Grant metadata.
    pub grant: ToolGrant,
    /// Stable agent identity.
    pub agent_id: StableId,
    /// Stable tool identity.
    pub tool_id: StableId,
}

/// What a [`PersistedToolGrant`] holds.
#[verifier::ext_equal]
pub struct PersistedToolGrantView {
    pub id: Seq<char>,
    pub tenant: Seq<char>,
    pub grant: ToolGrant,
    pub agent_id: Seq<char>,
    pub tool_id: Seq<char>,
}

impl View for PersistedToolGrant {
    type V = PersistedToolGrantView;

    open spec fn view(&self) -> PersistedToolGrantView {
        PersistedToolGrantView {
            id: self.id@,
            tenant: self.tenant@,
            grant: self.grant,
            agent_id: self.agent_id@,
            tool_id: self.tool_id@,
        }
    }
}

impl DeepView for PersistedToolGrant {
    type V = PersistedToolGrantView;

    open spec fn deep_view(&self) -> PersistedToolGrantView {
        self.view()
    }
}

impl Clone for PersistedToolGrant {
    fn clone(&self) -> (r: Self)
        ensures
            r@ == self@,
    {
        PersistedToolGrant {
            id: self.id.clone(),
            tenant: self.tenant.clone(),
            grant: self.grant,
            agent_id: self.agent_id.clone(),
            tool_id: self.tool_id.clone(),
        }
    }
}

/// Persisted store capability record.
#[derive(Debug, PartialEq, Eq)]
pub struct PersistedStore {
    /// Persistent identity.
    pub id: StableId,
    /// Tenant scope.
    pub tenant: TenantId,
    /// Store capability metadata.
    pub capability: StoreCapability,
}

/// What a [`PersistedStore`] holds.
#[verifier::ext_equal]
pub struct PersistedStoreView {
    pub id: Seq<char>,
    pub tenant: Seq<char>,
    pub capability: StoreCapabilityView,
}

impl View for PersistedStore {
    type V = PersistedStoreView;

    open spec fn view(&self) -> PersistedStoreView {
        PersistedStoreView {
            id: self.id@,
            tenant: self.tenant@,
            capability: self.capability@,
        }
    }
}

impl DeepView for PersistedStore {
    type V = PersistedStoreView;

    open spec fn deep_view(&self) -> PersistedStoreView {
        self.view()
    }
}

impl Clone for PersistedStore {
    fn clone(&self) -> (r: Self)
        ensures
            r@ == self@,
    {
        PersistedStore {
            id: self.id.clone(),
            tenant: self.tenant.clone(),
            capability: self.capability.clone(),
        }
    }
}

/// Persisted agent-to-store grant record.
#[derive(Debug, PartialEq, Eq)]
pub struct PersistedStoreGrant {
    /// Persistent grant identity.
    pub id: StableId,
    /// Tenant scope.
    pub tenant: TenantId,
    /// Grant metadata.
    pub grant: StoreGrant,
    /// Stable agent identity.
    pub agent_id: StableId,
    /// Stable store identity.
    pub store_id: StableId,
}

/// What a [`PersistedStoreGrant`] holds.
#[verifier::ext_equal]
pub struct PersistedStoreGrantView {
    pub id: Seq<char>,
    pub tenant: Seq<char>,
    pub grant: StoreGrant,
    pub agent_id: Seq<char>,
    pub store_id: Seq<char>,
}

impl View for PersistedStoreGrant {
    type V = PersistedStoreGrantView;

    open spec fn view(&self) -> PersistedStoreGrantView {
        PersistedStoreGrantView {
            id: self.id@,
            tenant: self.tenant@,
            grant: self.grant,
            agent_id: self.agent_id@,
            store_id: self.store_id@,
        }
    }
}

impl DeepView for PersistedStoreGrant {
    type V = PersistedStoreGrantView;

    open spec fn deep_view(&self) -> PersistedStoreGrantView {
        self.view()
    }
}

impl Clone for PersistedStoreGrant {
    fn clone(&self) -> (r: Self)
        ensures
            r@ == self@,
    {
        PersistedStoreGrant {
            id: self.id.clone(),
            tenant: self.tenant.clone(),
            grant: self.grant,
            agent_id: self.agent_id.clone(),
            store_id: self.store_id.clone(),
        }
    }
}

/// Persistence record containing only stable identities and canonical values.
#[derive(Debug, PartialEq, Eq)]
pub struct DomainSnapshot {
    /// Dynamic discovery sources reconstructed before their capabilities.
    pub discovery_sources: Vec<PersistedDiscoverySource>,
    /// Configured model capabilities.
    pub models: Vec<PersistedModel>,
    /// Agents and their stable model relationships.
    pub agents: Vec<PersistedAgent>,
    /// Policy instances and their stable agent relationships.
    pub policies: Vec<PersistedPolicy>,
    /// Executable tool capability metadata.
    pub tools: Vec<PersistedTool>,
    /// Stable agent-to-tool access relationships.
    pub tool_grants: Vec<PersistedToolGrant>,
    /// Addressable store capabilities.
    pub stores: Vec<PersistedStore>,
    /// Stable agent-to-store access relationships.
    pub store_grants: Vec<PersistedStoreGrant>,
}

/// What a [`DomainSnapshot`] holds.
#[verifier::ext_equal]
pub struct DomainSnapshotView {
    pub discovery_sources: Seq<PersistedDiscoverySourceView>,
    pub models: Seq<PersistedModelView>,
    pub agents: Seq<PersistedAgentView>,
    pub policies: Seq<PersistedPolicyView>,
    pub tools: Seq<PersistedToolView>,
    pub tool_grants: Seq<PersistedToolGrantView>,
    pub stores: Seq<PersistedStoreView>,
    pub store_grants: Seq<PersistedStoreGrantView>,
}

impl View for DomainSnapshot {
    type V = DomainSnapshotView;

    open spec fn view(&self) -> DomainSnapshotView {
        DomainSnapshotView {
            discovery_sources: self.discovery_sources.deep_view(),
            models: self.models.deep_view(),
            agents: self.agents.deep_view(),
            policies: self.policies.deep_view(),
            tools: self.tools.deep_view(),
            tool_grants: self.tool_grants.deep_view(),
            stores: self.stores.deep_view(),
            store_grants: self.store_grants.deep_view(),
        }
    }
}

impl DeepView for DomainSnapshot {
    type V = DomainSnapshotView;

    open spec fn deep_view(&self) -> DomainSnapshotView {
        self.view()
    }
}

impl Clone for DomainSnapshot {
    fn clone(&self) -> (r: Self)
        ensures
            r@ == self@,
    {
        let r = DomainSnapshot {
            discovery_sources: self.discovery_sources.clone(),
            models: self.models.clone(),
            agents: self.agents.clone(),
            policies: self.policies.clone(),
            tools: self.tools.clone(),
            tool_grants: self.tool_grants.clone(),
            stores: self.stores.clone(),
            store_grants: self.store_grants.clone(),
        };
        assert(r.discovery_sources.deep_view() =~= self.discovery_sources.deep_view());
        assert(r.models.deep_view() =~= self.models.deep_view());
        assert(r.agents.deep_view() =~= self.agents.deep_view());
        assert(r.policies.deep_view() =~= self.policies.deep_view());
        assert(r.tools.deep_view() =~= self.tools.deep_view());
        assert(r.tool_grants.deep_view() =~= self.tool_grants.deep_view());
        assert(r.stores.deep_view() =~= self.stores.deep_view());
        assert(r.store_grants.deep_view() =~= self.store_grants.deep_view());
        r
    }
}

} // verus!
