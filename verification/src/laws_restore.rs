//! A restored snapshot reads back as it was taken.

use vstd::prelude::*;

use crate::capability::DiscoveryKeyView;
use crate::column::{entities_of, lemma_ascending_entities, strictly_ascending, Entity};
use crate::fold::{first_picked, lemma_fold_next, lemma_picked_next, picked};
use crate::persisted::{
    DomainSnapshotView, PersistedAgentView, PersistedDiscoverySourceView, PersistedModelView,
    PersistedPolicyView, PersistedStoreGrantView, PersistedStoreView, PersistedToolGrantView,
    PersistedToolView,
};
use crate::restore::{
    agent_fault, agent_tenants, first_taken, id_index, id_taken, kind_tenants, model_tenants,
    policy_fault, provenance_fault, record_ids, restore_agent, restore_fault, restore_model,
    restore_policy, restore_source, restore_store, restore_store_grant, restore_tool,
    restore_tool_grant, restored, restored_entities, source_tenants, store_grant_fault,
    store_tenants, tool_grant_fault, tool_tenants, with_tenants, RestoreView,
};
use crate::run::{DiscoverySourceView, DiscoveryStateView};
use crate::snapshot::{
    agent_row, domain_records, first_stale, id_key, model_row, policy_row, sorted_records,
    source_row, stale_agent, stale_policy, stale_store_grant, stale_tool, stale_tool_grant,
    store_grant_row, store_row, tool_grant_row, tool_row,
};
use crate::sorting::{is_sorted, key_le, lemma_sort_rows, place_row, row_values, sort_rows, KeyView};
use crate::world::{DomainView, WorldView};

verus! {

spec fn o_discovery_sources(s: DomainSnapshotView) -> int {
    0
}

spec fn o_models(s: DomainSnapshotView) -> int {
    o_discovery_sources(s) + s.discovery_sources.len()
}

spec fn o_tools(s: DomainSnapshotView) -> int {
    o_models(s) + s.models.len()
}

spec fn o_stores(s: DomainSnapshotView) -> int {
    o_tools(s) + s.tools.len()
}

spec fn o_agents(s: DomainSnapshotView) -> int {
    o_stores(s) + s.stores.len()
}

spec fn o_policies(s: DomainSnapshotView) -> int {
    o_agents(s) + s.agents.len()
}

spec fn o_tool_grants(s: DomainSnapshotView) -> int {
    o_policies(s) + s.policies.len()
}

spec fn o_store_grants(s: DomainSnapshotView) -> int {
    o_tool_grants(s) + s.tool_grants.len()
}

/// Number of the records of a snapshot.
pub open spec fn record_count(s: DomainSnapshotView) -> nat {
    s.discovery_sources.len() + s.models.len() + s.tools.len() + s.stores.len() + s.agents.len() + s.policies.len() + s.tool_grants.len() + s.store_grants.len()
}

/// Id of the record that is restored in position `j`.
spec fn id_at(s: DomainSnapshotView, j: int) -> Seq<char> {
    if j < o_models(s) {
        s.discovery_sources[j - o_discovery_sources(s)].id
    } else if j < o_tools(s) {
        s.models[j - o_models(s)].id
    } else if j < o_stores(s) {
        s.tools[j - o_tools(s)].id
    } else if j < o_agents(s) {
        s.stores[j - o_stores(s)].id
    } else if j < o_policies(s) {
        s.agents[j - o_agents(s)].id
    } else if j < o_tool_grants(s) {
        s.policies[j - o_policies(s)].id
    } else if j < o_store_grants(s) {
        s.tool_grants[j - o_tool_grants(s)].id
    } else {
        s.store_grants[j - o_store_grants(s)].id
    }
}

/// Tenant of the record that is restored in position `j`.
spec fn tenant_at(s: DomainSnapshotView, j: int) -> Seq<char> {
    if j < o_models(s) {
        s.discovery_sources[j - o_discovery_sources(s)].tenant
    } else if j < o_tools(s) {
        s.models[j - o_models(s)].tenant
    } else if j < o_stores(s) {
        s.tools[j - o_tools(s)].tenant
    } else if j < o_agents(s) {
        s.stores[j - o_stores(s)].tenant
    } else if j < o_policies(s) {
        s.agents[j - o_agents(s)].tenant
    } else if j < o_tool_grants(s) {
        s.policies[j - o_policies(s)].tenant
    } else if j < o_store_grants(s) {
        s.tool_grants[j - o_tool_grants(s)].tenant
    } else {
        s.store_grants[j - o_store_grants(s)].tenant
    }
}

/// Where that record stands among the ids that are compared.
spec fn compared_at(s: DomainSnapshotView, j: int) -> int {
    if j < o_models(s) {
        (0) + (j - o_discovery_sources(s))
    } else if j < o_tools(s) {
        (0 + s.discovery_sources.len()) + (j - o_models(s))
    } else if j < o_stores(s) {
        (0 + s.discovery_sources.len() + s.models.len() + s.agents.len() + s.policies.len()) + (j - o_tools(s))
    } else if j < o_agents(s) {
        (0 + s.discovery_sources.len() + s.models.len() + s.agents.len() + s.policies.len() + s.tools.len() + s.tool_grants.len()) + (j - o_stores(s))
    } else if j < o_policies(s) {
        (0 + s.discovery_sources.len() + s.models.len()) + (j - o_agents(s))
    } else if j < o_tool_grants(s) {
        (0 + s.discovery_sources.len() + s.models.len() + s.agents.len()) + (j - o_policies(s))
    } else if j < o_store_grants(s) {
        (0 + s.discovery_sources.len() + s.models.len() + s.agents.len() + s.policies.len() + s.tools.len()) + (j - o_tool_grants(s))
    } else {
        (0 + s.discovery_sources.len() + s.models.len() + s.agents.len() + s.policies.len() + s.tools.len() + s.tool_grants.len() + s.stores.len()) + (j - o_store_grants(s))
    }
}

proof fn lemma_compared(s: DomainSnapshotView, j: int)
    requires
        0 <= j < record_count(s),
    ensures
        0 <= compared_at(s, j) < record_ids(s).len(),
        record_ids(s)[compared_at(s, j)] == id_at(s, j),
{
}

proof fn lemma_none_taken(s: DomainSnapshotView, index: Map<Seq<char>, Entity>, from: int)
    requires
        0 <= from,
        first_taken(index, record_ids(s), from) is None,
    ensures
        forall|i: int| from <= i < record_ids(s).len() ==> !#[trigger] id_taken(index, record_ids(s), i),
    decreases record_ids(s).len() - from,
{
    if from < record_ids(s).len() {
        lemma_none_taken(s, index, from + 1);
    }
}

/// Whether no two records have the same id.
spec fn distinct_ids(s: DomainSnapshotView) -> bool {
    forall|i: int, j: int|
        0 <= i < j < record_count(s) ==> #[trigger] id_at(s, i) != #[trigger] id_at(s, j)
}

proof fn lemma_distinct_ids(s: DomainSnapshotView, index: Map<Seq<char>, Entity>)
    requires
        first_taken(index, record_ids(s), 0) is None,
    ensures
        distinct_ids(s),
{
    lemma_none_taken(s, index, 0);
    let ids = record_ids(s);
    assert forall|i: int, j: int| 0 <= i < j < record_count(s) implies #[trigger] id_at(s, i)
        != #[trigger] id_at(s, j) by {
        lemma_compared(s, i);
        lemma_compared(s, j);
        let a = compared_at(s, i);
        let b = compared_at(s, j);
        assert(a != b);
        assert(!id_taken(index, ids, a));
        assert(!id_taken(index, ids, b));
        if ids[a] == ids[b] {
            if a < b {
                assert(ids[a] == ids[b]);
            } else {
                assert(ids[b] == ids[a]);
            }
        }
    }
}

/// Whether some record among the first ones has an id.
spec fn has_record(s: DomainSnapshotView, id: Seq<char>, k: int) -> bool {
    exists|j: int| 0 <= j < k && #[trigger] id_at(s, j) == id
}

/// Position of the record with an id.
spec fn position_of(s: DomainSnapshotView, id: Seq<char>) -> int {
    choose|j: int| 0 <= j < record_count(s) && #[trigger] id_at(s, j) == id
}

/// The entity that the record with an id becomes.
spec fn made_for(s: DomainSnapshotView, lo: u64, id: Seq<char>) -> Entity {
    Entity((lo + position_of(s, id)) as u64)
}

proof fn lemma_made_for(s: DomainSnapshotView, lo: u64, j: int)
    requires
        distinct_ids(s),
        0 <= j < record_count(s),
    ensures
        position_of(s, id_at(s, j)) == j,
        made_for(s, lo, id_at(s, j)) == Entity((lo + j) as u64),
{
    let p = position_of(s, id_at(s, j));
    assert(0 <= p < record_count(s) && id_at(s, p) == id_at(s, j));
    if p < j {
        assert(id_at(s, p) != id_at(s, j));
    }
    if j < p {
        assert(id_at(s, j) != id_at(s, p));
    }
}

/// Whether an entity is one of those made of the records of one kind, of which the first stands
/// in position `o`, among the first `k` of all.
spec fn made_in(lo: u64, e: Entity, o: int, n: nat, k: int) -> bool {
    lo + o <= e.0 < lo + o + n && e.0 < lo + k
}

/// The configured entities once the first `k` records were restored beside those of a world.
spec fn domain_upto(d: DomainView, s: DomainSnapshotView, lo: u64, k: int) -> DomainView {
    DomainView {
        agents: Map::new(
            |e: Entity|
                if e.0 < lo {
                    d.agents.contains_key(e)
                } else {
                    made_in(lo, e, o_agents(s), s.agents.len(), k)
                },
            |e: Entity|
                if e.0 < lo {
                    d.agents[e]
                } else {
                    s.agents[e.0 - lo - o_agents(s)].agent
                },
        ),
        models: Map::new(
            |e: Entity|
                if e.0 < lo {
                    d.models.contains_key(e)
                } else {
                    made_in(lo, e, o_models(s), s.models.len(), k)
                },
            |e: Entity|
                if e.0 < lo {
                    d.models[e]
                } else {
                    s.models[e.0 - lo - o_models(s)].capability
                },
        ),
        uses_model: Map::new(
            |e: Entity|
                if e.0 < lo {
                    d.uses_model.contains_key(e)
                } else {
                    made_in(lo, e, o_agents(s), s.agents.len(), k)
                },
            |e: Entity|
                if e.0 < lo {
                    d.uses_model[e]
                } else {
                    made_for(s, lo, s.agents[e.0 - lo - o_agents(s)].model_id)
                },
        ),
        output_requirements: Map::new(
            |e: Entity|
                if e.0 < lo {
                    d.output_requirements.contains_key(e)
                } else {
                    made_in(lo, e, o_agents(s), s.agents.len(), k) && s.agents[e.0 - lo - o_agents(s)].output_requirement is Some
                },
            |e: Entity|
                if e.0 < lo {
                    d.output_requirements[e]
                } else {
                    s.agents[e.0 - lo - o_agents(s)].output_requirement->0
                },
        ),
        retrieval_requirements: Map::new(
            |e: Entity|
                if e.0 < lo {
                    d.retrieval_requirements.contains_key(e)
                } else {
                    made_in(lo, e, o_agents(s), s.agents.len(), k) && s.agents[e.0 - lo - o_agents(s)].retrieval_requirement is Some
                },
            |e: Entity|
                if e.0 < lo {
                    d.retrieval_requirements[e]
                } else {
                    s.agents[e.0 - lo - o_agents(s)].retrieval_requirement->0
                },
        ),
        policies: Map::new(
            |e: Entity|
                if e.0 < lo {
                    d.policies.contains_key(e)
                } else {
                    made_in(lo, e, o_policies(s), s.policies.len(), k)
                },
            |e: Entity|
                if e.0 < lo {
                    d.policies[e]
                } else {
                    s.policies[e.0 - lo - o_policies(s)].policy
                },
        ),
        policy_for: Map::new(
            |e: Entity|
                if e.0 < lo {
                    d.policy_for.contains_key(e)
                } else {
                    made_in(lo, e, o_policies(s), s.policies.len(), k)
                },
            |e: Entity|
                if e.0 < lo {
                    d.policy_for[e]
                } else {
                    made_for(s, lo, s.policies[e.0 - lo - o_policies(s)].agent_id)
                },
        ),
        policy_status: d.policy_status,
        tools: Map::new(
            |e: Entity|
                if e.0 < lo {
                    d.tools.contains_key(e)
                } else {
                    made_in(lo, e, o_tools(s), s.tools.len(), k)
                },
            |e: Entity|
                if e.0 < lo {
                    d.tools[e]
                } else {
                    s.tools[e.0 - lo - o_tools(s)].capability
                },
        ),
        tool_grants: Map::new(
            |e: Entity|
                if e.0 < lo {
                    d.tool_grants.contains_key(e)
                } else {
                    made_in(lo, e, o_tool_grants(s), s.tool_grants.len(), k)
                },
            |e: Entity|
                if e.0 < lo {
                    d.tool_grants[e]
                } else {
                    s.tool_grants[e.0 - lo - o_tool_grants(s)].grant
                },
        ),
        grant_for_agent: Map::new(
            |e: Entity|
                if e.0 < lo {
                    d.grant_for_agent.contains_key(e)
                } else {
                    made_in(lo, e, o_tool_grants(s), s.tool_grants.len(), k)
                },
            |e: Entity|
                if e.0 < lo {
                    d.grant_for_agent[e]
                } else {
                    made_for(s, lo, s.tool_grants[e.0 - lo - o_tool_grants(s)].agent_id)
                },
        ),
        grant_for_tool: Map::new(
            |e: Entity|
                if e.0 < lo {
                    d.grant_for_tool.contains_key(e)
                } else {
                    made_in(lo, e, o_tool_grants(s), s.tool_grants.len(), k)
                },
            |e: Entity|
                if e.0 < lo {
                    d.grant_for_tool[e]
                } else {
                    made_for(s, lo, s.tool_grants[e.0 - lo - o_tool_grants(s)].tool_id)
                },
        ),
        stores: Map::new(
            |e: Entity|
                if e.0 < lo {
                    d.stores.contains_key(e)
                } else {
                    made_in(lo, e, o_stores(s), s.stores.len(), k)
                },
            |e: Entity|
                if e.0 < lo {
                    d.stores[e]
                } else {
                    s.stores[e.0 - lo - o_stores(s)].capability
                },
        ),
        store_grants: Map::new(
            |e: Entity|
                if e.0 < lo {
                    d.store_grants.contains_key(e)
                } else {
                    made_in(lo, e, o_store_grants(s), s.store_grants.len(), k)
                },
            |e: Entity|
                if e.0 < lo {
                    d.store_grants[e]
                } else {
                    s.store_grants[e.0 - lo - o_store_grants(s)].grant
                },
        ),
        store_grant_for_agent: Map::new(
            |e: Entity|
                if e.0 < lo {
                    d.store_grant_for_agent.contains_key(e)
                } else {
                    made_in(lo, e, o_store_grants(s), s.store_grants.len(), k)
                },
            |e: Entity|
                if e.0 < lo {
                    d.store_grant_for_agent[e]
                } else {
                    made_for(s, lo, s.store_grants[e.0 - lo - o_store_grants(s)].agent_id)
                },
        ),
        store_grant_for_store: Map::new(
            |e: Entity|
                if e.0 < lo {
                    d.store_grant_for_store.contains_key(e)
                } else {
                    made_in(lo, e, o_store_grants(s), s.store_grants.len(), k)
                },
            |e: Entity|
                if e.0 < lo {
                    d.store_grant_for_store[e]
                } else {
                    made_for(s, lo, s.store_grants[e.0 - lo - o_store_grants(s)].store_id)
                },
        ),
        sources: Map::new(
            |e: Entity|
                if e.0 < lo {
                    d.sources.contains_key(e)
                } else {
                    made_in(lo, e, o_discovery_sources(s), s.discovery_sources.len(), k)
                },
            |e: Entity|
                if e.0 < lo {
                    d.sources[e]
                } else {
                    DiscoverySourceView {
                        kind: s.discovery_sources[e.0 - lo - o_discovery_sources(s)].kind,
                        generation: s.discovery_sources[e.0 - lo - o_discovery_sources(s)].generation,
                        state: DiscoveryStateView::Idle,
                    }
                },
        ),
        discovered_from: Map::new(
            |e: Entity|
                if e.0 < lo {
                    d.discovered_from.contains_key(e)
                } else {
                    made_in(lo, e, o_tools(s), s.tools.len(), k) && s.tools[e.0 - lo - o_tools(s)].source_id is Some && s.tools[e.0 - lo - o_tools(s)].discovery_key is Some
                },
            |e: Entity|
                if e.0 < lo {
                    d.discovered_from[e]
                } else {
                    made_for(s, lo, s.tools[e.0 - lo - o_tools(s)].source_id->0)
                },
        ),
        discovery_keys: Map::new(
            |e: Entity|
                if e.0 < lo {
                    d.discovery_keys.contains_key(e)
                } else {
                    made_in(lo, e, o_tools(s), s.tools.len(), k) && s.tools[e.0 - lo - o_tools(s)].source_id is Some && s.tools[e.0 - lo - o_tools(s)].discovery_key is Some
                },
            |e: Entity|
                if e.0 < lo {
                    d.discovery_keys[e]
                } else {
                    DiscoveryKeyView(s.tools[e.0 - lo - o_tools(s)].discovery_key->0)
                },
        ),
        retired: d.retired,
    }
}

/// The restoration once the first `k` records were restored into a world without entities.
spec fn restored_upto(w: WorldView, s: DomainSnapshotView, k: int) -> RestoreView {
    let lo = w.next;
    RestoreView {
        world: WorldView {
            next: (lo + k) as u64,
            stable_ids: Map::new(
                |e: Entity| lo <= e.0 < lo + k,
                |e: Entity| id_at(s, e.0 - lo),
            ),
            tenants: Map::new(
                |e: Entity| e.0 < lo && w.tenants.contains_key(e) || lo <= e.0 < lo + k,
                |e: Entity|
                    if e.0 < lo {
                        w.tenants[e]
                    } else {
                        tenant_at(s, e.0 - lo)
                    },
            ),
            domain: domain_upto(w.domain, s, lo, k),
            ..w
        },
        mapped: Map::new(
            |id: Seq<char>| has_record(s, id, k),
            |id: Seq<char>| made_for(s, lo, id),
        ),
    }
}

/// Whether an entity has no tenant and is nothing that is configured.
pub open spec fn is_blank_entity(w: WorldView, e: Entity) -> bool {
    &&& !w.tenants.contains_key(e)
    &&& !w.domain.agents.contains_key(e)
    &&& !w.domain.models.contains_key(e)
    &&& !w.domain.uses_model.contains_key(e)
    &&& !w.domain.output_requirements.contains_key(e)
    &&& !w.domain.retrieval_requirements.contains_key(e)
    &&& !w.domain.policies.contains_key(e)
    &&& !w.domain.policy_for.contains_key(e)
    &&& !w.domain.tools.contains_key(e)
    &&& !w.domain.tool_grants.contains_key(e)
    &&& !w.domain.grant_for_agent.contains_key(e)
    &&& !w.domain.grant_for_tool.contains_key(e)
    &&& !w.domain.stores.contains_key(e)
    &&& !w.domain.store_grants.contains_key(e)
    &&& !w.domain.store_grant_for_agent.contains_key(e)
    &&& !w.domain.store_grant_for_store.contains_key(e)
    &&& !w.domain.sources.contains_key(e)
    &&& !w.domain.discovered_from.contains_key(e)
    &&& !w.domain.discovery_keys.contains_key(e)
}

/// Whether a world has no entity with an identity, and no component of an entity that it has not
/// made yet.
pub open spec fn is_bare(w: WorldView) -> bool {
    &&& w.stable_ids == Map::<Entity, Seq<char>>::empty()
    &&& forall|e: Entity| w.next <= e.0 ==> #[trigger] is_blank_entity(w, e)
}

/// Whether a snapshot can be restored into a world without entities, for which entities have
/// numbers left.
spec fn restorable(w: WorldView, s: DomainSnapshotView) -> bool {
    &&& is_bare(w)
    &&& distinct_ids(s)
    &&& w.next + record_count(s) <= u64::MAX
    &&& refers(s)
}

/// Whether every reference leads to a record of the right kind.
spec fn refers(s: DomainSnapshotView) -> bool {
    &&& forall|i: int| 0 <= i < s.agents.len() ==> has_model(s, (#[trigger] s.agents[i]).model_id)
    &&& forall|i: int| 0 <= i < s.policies.len() ==> has_agent(s, (#[trigger] s.policies[i]).agent_id)
    &&& forall|i: int| 0 <= i < s.tools.len() ==> has_provenance(s, #[trigger] s.tools[i])
    &&& forall|i: int|
        0 <= i < s.tool_grants.len() ==> has_agent(s, (#[trigger] s.tool_grants[i]).agent_id)
            && has_tool(s, s.tool_grants[i].tool_id)
    &&& forall|i: int|
        0 <= i < s.store_grants.len() ==> has_agent(s, (#[trigger] s.store_grants[i]).agent_id)
            && has_store(s, s.store_grants[i].store_id)
}

spec fn has_model(s: DomainSnapshotView, id: Seq<char>) -> bool {
    exists|j: int| 0 <= j < s.models.len() && (#[trigger] s.models[j]).id == id
}

spec fn has_agent(s: DomainSnapshotView, id: Seq<char>) -> bool {
    exists|j: int| 0 <= j < s.agents.len() && (#[trigger] s.agents[j]).id == id
}

spec fn has_source(s: DomainSnapshotView, id: Seq<char>) -> bool {
    exists|j: int| 0 <= j < s.discovery_sources.len() && (#[trigger] s.discovery_sources[j]).id == id
}

spec fn has_tool(s: DomainSnapshotView, id: Seq<char>) -> bool {
    exists|j: int| 0 <= j < s.tools.len() && (#[trigger] s.tools[j]).id == id
}

spec fn has_store(s: DomainSnapshotView, id: Seq<char>) -> bool {
    exists|j: int| 0 <= j < s.stores.len() && (#[trigger] s.stores[j]).id == id
}

spec fn has_provenance(s: DomainSnapshotView, tool: PersistedToolView) -> bool {
    match (tool.source_id, tool.discovery_key) {
        (None, None) => true,
        (Some(source), Some(_)) => has_source(s, source),
        _ => false,
    }
}

proof fn lemma_model_target(s: DomainSnapshotView, lo: u64, id: Seq<char>, k: int)
    requires
        distinct_ids(s),
        has_model(s, id),
        lo + record_count(s) <= u64::MAX,
        o_models(s) + s.models.len() <= k <= record_count(s),
    ensures
        has_record(s, id, k),
        made_in(lo, made_for(s, lo, id), o_models(s), s.models.len(), k),
        id_at(s, made_for(s, lo, id).0 - lo) == id,
{
    let i = choose|i: int| 0 <= i < s.models.len() && (#[trigger] s.models[i]).id == id;
    let j = o_models(s) + i;
    assert(id_at(s, j) == id);
    lemma_made_for(s, lo, j);
}

proof fn lemma_agent_target(s: DomainSnapshotView, lo: u64, id: Seq<char>, k: int)
    requires
        distinct_ids(s),
        has_agent(s, id),
        lo + record_count(s) <= u64::MAX,
        o_agents(s) + s.agents.len() <= k <= record_count(s),
    ensures
        has_record(s, id, k),
        made_in(lo, made_for(s, lo, id), o_agents(s), s.agents.len(), k),
        id_at(s, made_for(s, lo, id).0 - lo) == id,
{
    let i = choose|i: int| 0 <= i < s.agents.len() && (#[trigger] s.agents[i]).id == id;
    let j = o_agents(s) + i;
    assert(id_at(s, j) == id);
    lemma_made_for(s, lo, j);
}

proof fn lemma_source_target(s: DomainSnapshotView, lo: u64, id: Seq<char>, k: int)
    requires
        distinct_ids(s),
        has_source(s, id),
        lo + record_count(s) <= u64::MAX,
        o_discovery_sources(s) + s.discovery_sources.len() <= k <= record_count(s),
    ensures
        has_record(s, id, k),
        made_in(lo, made_for(s, lo, id), o_discovery_sources(s), s.discovery_sources.len(), k),
        id_at(s, made_for(s, lo, id).0 - lo) == id,
{
    let i = choose|i: int| 0 <= i < s.discovery_sources.len() && (#[trigger] s.discovery_sources[i]).id == id;
    let j = o_discovery_sources(s) + i;
    assert(id_at(s, j) == id);
    lemma_made_for(s, lo, j);
}

proof fn lemma_tool_target(s: DomainSnapshotView, lo: u64, id: Seq<char>, k: int)
    requires
        distinct_ids(s),
        has_tool(s, id),
        lo + record_count(s) <= u64::MAX,
        o_tools(s) + s.tools.len() <= k <= record_count(s),
    ensures
        has_record(s, id, k),
        made_in(lo, made_for(s, lo, id), o_tools(s), s.tools.len(), k),
        id_at(s, made_for(s, lo, id).0 - lo) == id,
{
    let i = choose|i: int| 0 <= i < s.tools.len() && (#[trigger] s.tools[i]).id == id;
    let j = o_tools(s) + i;
    assert(id_at(s, j) == id);
    lemma_made_for(s, lo, j);
}

proof fn lemma_store_target(s: DomainSnapshotView, lo: u64, id: Seq<char>, k: int)
    requires
        distinct_ids(s),
        has_store(s, id),
        lo + record_count(s) <= u64::MAX,
        o_stores(s) + s.stores.len() <= k <= record_count(s),
    ensures
        has_record(s, id, k),
        made_in(lo, made_for(s, lo, id), o_stores(s), s.stores.len(), k),
        id_at(s, made_for(s, lo, id).0 - lo) == id,
{
    let i = choose|i: int| 0 <= i < s.stores.len() && (#[trigger] s.stores[i]).id == id;
    let j = o_stores(s) + i;
    assert(id_at(s, j) == id);
    lemma_made_for(s, lo, j);
}

proof fn lemma_mapped_next(w: WorldView, s: DomainSnapshotView, k: int)
    requires
        distinct_ids(s),
        0 <= k < record_count(s),
        w.next + record_count(s) <= u64::MAX,
    ensures
        restored_upto(w, s, k).mapped.insert(id_at(s, k), Entity((w.next + k) as u64))
            == restored_upto(w, s, k + 1).mapped,
{
    let before = restored_upto(w, s, k).mapped;
    let after = restored_upto(w, s, k + 1).mapped;
    let made = before.insert(id_at(s, k), Entity((w.next + k) as u64));
    lemma_made_for(s, w.next, k);
    assert forall|id: Seq<char>| made.contains_key(id) <==> after.contains_key(id) by {
        if has_record(s, id, k) {
            let j = choose|j: int| 0 <= j < k && #[trigger] id_at(s, j) == id;
            assert(0 <= j < k + 1 && id_at(s, j) == id);
        }
        if has_record(s, id, k + 1) && id != id_at(s, k) {
            let j = choose|j: int| 0 <= j < k + 1 && #[trigger] id_at(s, j) == id;
            assert(j != k);
            assert(0 <= j < k && id_at(s, j) == id);
        }
        if id == id_at(s, k) {
            assert(0 <= k < k + 1 && id_at(s, k) == id);
        }
    }
    assert(made =~= after);
}

#[verifier::spinoff_prover]
#[verifier::rlimit(60)]
proof fn lemma_source_step(w: WorldView, s: DomainSnapshotView, i: int)
    requires
        restorable(w, s),
        0 <= i < s.discovery_sources.len(),
    ensures
        restore_source(restored_upto(w, s, o_discovery_sources(s) + i), s.discovery_sources[i]) == restored_upto(
            w,
            s,
            o_discovery_sources(s) + i + 1,
        ),
{
    let k = o_discovery_sources(s) + i;
    let before = restored_upto(w, s, k);
    let after = restored_upto(w, s, k + 1);
    let made = restore_source(before, s.discovery_sources[i]);
    lemma_mapped_next(w, s, k);
    assert(id_at(s, k) == s.discovery_sources[i].id);
    assert(tenant_at(s, k) == s.discovery_sources[i].tenant);
    assert(made.world.stable_ids =~= after.world.stable_ids);
    assert(made.world.tenants =~= after.world.tenants);
    assert(made.world.domain.agents =~= after.world.domain.agents);
    assert(made.world.domain.models =~= after.world.domain.models);
    assert(made.world.domain.uses_model =~= after.world.domain.uses_model);
    assert(made.world.domain.output_requirements =~= after.world.domain.output_requirements);
    assert(made.world.domain.retrieval_requirements =~= after.world.domain.retrieval_requirements);
    assert(made.world.domain.policies =~= after.world.domain.policies);
    assert(made.world.domain.policy_for =~= after.world.domain.policy_for);
    assert(made.world.domain.policy_status =~= after.world.domain.policy_status);
    assert(made.world.domain.tools =~= after.world.domain.tools);
    assert(made.world.domain.tool_grants =~= after.world.domain.tool_grants);
    assert(made.world.domain.grant_for_agent =~= after.world.domain.grant_for_agent);
    assert(made.world.domain.grant_for_tool =~= after.world.domain.grant_for_tool);
    assert(made.world.domain.stores =~= after.world.domain.stores);
    assert(made.world.domain.store_grants =~= after.world.domain.store_grants);
    assert(made.world.domain.store_grant_for_agent =~= after.world.domain.store_grant_for_agent);
    assert(made.world.domain.store_grant_for_store =~= after.world.domain.store_grant_for_store);
    assert(made.world.domain.sources =~= after.world.domain.sources);
    assert(made.world.domain.discovered_from =~= after.world.domain.discovered_from);
    assert(made.world.domain.discovery_keys =~= after.world.domain.discovery_keys);
    assert(made.world.domain.retired =~= after.world.domain.retired);
    assert(made.world.domain =~= after.world.domain);
    assert(made.world =~= after.world);
}

proof fn lemma_source_restored(w: WorldView, s: DomainSnapshotView, n: int)
    requires
        restorable(w, s),
        0 <= n <= s.discovery_sources.len(),
    ensures
        s.discovery_sources.take(n).fold_left(
            restored_upto(w, s, o_discovery_sources(s)),
            |r: RestoreView, record: PersistedDiscoverySourceView| restore_source(r, record),
        ) == restored_upto(w, s, o_discovery_sources(s) + n),
    decreases n,
{
    let step = |r: RestoreView, record: PersistedDiscoverySourceView| restore_source(r, record);
    let start = restored_upto(w, s, o_discovery_sources(s));
    if n > 0 {
        lemma_source_restored(w, s, n - 1);
        lemma_source_step(w, s, n - 1);
        lemma_fold_next(s.discovery_sources, n - 1, start, step);
    } else {
        reveal_with_fuel(Seq::fold_left, 1);
        assert(s.discovery_sources.take(0).len() == 0);
    }
}

#[verifier::spinoff_prover]
#[verifier::rlimit(60)]
proof fn lemma_model_step(w: WorldView, s: DomainSnapshotView, i: int)
    requires
        restorable(w, s),
        0 <= i < s.models.len(),
    ensures
        restore_model(restored_upto(w, s, o_models(s) + i), s.models[i]) == restored_upto(
            w,
            s,
            o_models(s) + i + 1,
        ),
{
    let k = o_models(s) + i;
    let before = restored_upto(w, s, k);
    let after = restored_upto(w, s, k + 1);
    let made = restore_model(before, s.models[i]);
    lemma_mapped_next(w, s, k);
    assert(id_at(s, k) == s.models[i].id);
    assert(tenant_at(s, k) == s.models[i].tenant);
    assert(made.world.stable_ids =~= after.world.stable_ids);
    assert(made.world.tenants =~= after.world.tenants);
    assert(made.world.domain.agents =~= after.world.domain.agents);
    assert(made.world.domain.models =~= after.world.domain.models);
    assert(made.world.domain.uses_model =~= after.world.domain.uses_model);
    assert(made.world.domain.output_requirements =~= after.world.domain.output_requirements);
    assert(made.world.domain.retrieval_requirements =~= after.world.domain.retrieval_requirements);
    assert(made.world.domain.policies =~= after.world.domain.policies);
    assert(made.world.domain.policy_for =~= after.world.domain.policy_for);
    assert(made.world.domain.policy_status =~= after.world.domain.policy_status);
    assert(made.world.domain.tools =~= after.world.domain.tools);
    assert(made.world.domain.tool_grants =~= after.world.domain.tool_grants);
    assert(made.world.domain.grant_for_agent =~= after.world.domain.grant_for_agent);
    assert(made.world.domain.grant_for_tool =~= after.world.domain.grant_for_tool);
    assert(made.world.domain.stores =~= after.world.domain.stores);
    assert(made.world.domain.store_grants =~= after.world.domain.store_grants);
    assert(made.world.domain.store_grant_for_agent =~= after.world.domain.store_grant_for_agent);
    assert(made.world.domain.store_grant_for_store =~= after.world.domain.store_grant_for_store);
    assert(made.world.domain.sources =~= after.world.domain.sources);
    assert(made.world.domain.discovered_from =~= after.world.domain.discovered_from);
    assert(made.world.domain.discovery_keys =~= after.world.domain.discovery_keys);
    assert(made.world.domain.retired =~= after.world.domain.retired);
    assert(made.world.domain =~= after.world.domain);
    assert(made.world =~= after.world);
}

proof fn lemma_model_restored(w: WorldView, s: DomainSnapshotView, n: int)
    requires
        restorable(w, s),
        0 <= n <= s.models.len(),
    ensures
        s.models.take(n).fold_left(
            restored_upto(w, s, o_models(s)),
            |r: RestoreView, record: PersistedModelView| restore_model(r, record),
        ) == restored_upto(w, s, o_models(s) + n),
    decreases n,
{
    let step = |r: RestoreView, record: PersistedModelView| restore_model(r, record);
    let start = restored_upto(w, s, o_models(s));
    if n > 0 {
        lemma_model_restored(w, s, n - 1);
        lemma_model_step(w, s, n - 1);
        lemma_fold_next(s.models, n - 1, start, step);
    } else {
        reveal_with_fuel(Seq::fold_left, 1);
        assert(s.models.take(0).len() == 0);
    }
}

#[verifier::spinoff_prover]
#[verifier::rlimit(60)]
proof fn lemma_tool_step(w: WorldView, s: DomainSnapshotView, i: int)
    requires
        restorable(w, s),
        0 <= i < s.tools.len(),
    ensures
        restore_tool(restored_upto(w, s, o_tools(s) + i), s.tools[i]) == restored_upto(
            w,
            s,
            o_tools(s) + i + 1,
        ),
{
    let k = o_tools(s) + i;
    let before = restored_upto(w, s, k);
    let after = restored_upto(w, s, k + 1);
    let record = s.tools[i];
    assert(has_provenance(s, record));
    if record.source_id is Some {
        lemma_source_target(s, w.next, record.source_id->0, k);
    }
    let made = restore_tool(before, s.tools[i]);
    lemma_mapped_next(w, s, k);
    assert(id_at(s, k) == s.tools[i].id);
    assert(tenant_at(s, k) == s.tools[i].tenant);
    assert(made.world.stable_ids =~= after.world.stable_ids);
    assert(made.world.tenants =~= after.world.tenants);
    assert(made.world.domain.agents =~= after.world.domain.agents);
    assert(made.world.domain.models =~= after.world.domain.models);
    assert(made.world.domain.uses_model =~= after.world.domain.uses_model);
    assert(made.world.domain.output_requirements =~= after.world.domain.output_requirements);
    assert(made.world.domain.retrieval_requirements =~= after.world.domain.retrieval_requirements);
    assert(made.world.domain.policies =~= after.world.domain.policies);
    assert(made.world.domain.policy_for =~= after.world.domain.policy_for);
    assert(made.world.domain.policy_status =~= after.world.domain.policy_status);
    assert(made.world.domain.tools =~= after.world.domain.tools);
    assert(made.world.domain.tool_grants =~= after.world.domain.tool_grants);
    assert(made.world.domain.grant_for_agent =~= after.world.domain.grant_for_agent);
    assert(made.world.domain.grant_for_tool =~= after.world.domain.grant_for_tool);
    assert(made.world.domain.stores =~= after.world.domain.stores);
    assert(made.world.domain.store_grants =~= after.world.domain.store_grants);
    assert(made.world.domain.store_grant_for_agent =~= after.world.domain.store_grant_for_agent);
    assert(made.world.domain.store_grant_for_store =~= after.world.domain.store_grant_for_store);
    assert(made.world.domain.sources =~= after.world.domain.sources);
    assert(made.world.domain.discovered_from =~= after.world.domain.discovered_from);
    assert(made.world.domain.discovery_keys =~= after.world.domain.discovery_keys);
    assert(made.world.domain.retired =~= after.world.domain.retired);
    assert(made.world.domain =~= after.world.domain);
    assert(made.world =~= after.world);
}

proof fn lemma_tool_restored(w: WorldView, s: DomainSnapshotView, n: int)
    requires
        restorable(w, s),
        0 <= n <= s.tools.len(),
    ensures
        s.tools.take(n).fold_left(
            restored_upto(w, s, o_tools(s)),
            |r: RestoreView, record: PersistedToolView| restore_tool(r, record),
        ) == restored_upto(w, s, o_tools(s) + n),
    decreases n,
{
    let step = |r: RestoreView, record: PersistedToolView| restore_tool(r, record);
    let start = restored_upto(w, s, o_tools(s));
    if n > 0 {
        lemma_tool_restored(w, s, n - 1);
        lemma_tool_step(w, s, n - 1);
        lemma_fold_next(s.tools, n - 1, start, step);
    } else {
        reveal_with_fuel(Seq::fold_left, 1);
        assert(s.tools.take(0).len() == 0);
    }
}

#[verifier::spinoff_prover]
#[verifier::rlimit(60)]
proof fn lemma_store_step(w: WorldView, s: DomainSnapshotView, i: int)
    requires
        restorable(w, s),
        0 <= i < s.stores.len(),
    ensures
        restore_store(restored_upto(w, s, o_stores(s) + i), s.stores[i]) == restored_upto(
            w,
            s,
            o_stores(s) + i + 1,
        ),
{
    let k = o_stores(s) + i;
    let before = restored_upto(w, s, k);
    let after = restored_upto(w, s, k + 1);
    let made = restore_store(before, s.stores[i]);
    lemma_mapped_next(w, s, k);
    assert(id_at(s, k) == s.stores[i].id);
    assert(tenant_at(s, k) == s.stores[i].tenant);
    assert(made.world.stable_ids =~= after.world.stable_ids);
    assert(made.world.tenants =~= after.world.tenants);
    assert(made.world.domain.agents =~= after.world.domain.agents);
    assert(made.world.domain.models =~= after.world.domain.models);
    assert(made.world.domain.uses_model =~= after.world.domain.uses_model);
    assert(made.world.domain.output_requirements =~= after.world.domain.output_requirements);
    assert(made.world.domain.retrieval_requirements =~= after.world.domain.retrieval_requirements);
    assert(made.world.domain.policies =~= after.world.domain.policies);
    assert(made.world.domain.policy_for =~= after.world.domain.policy_for);
    assert(made.world.domain.policy_status =~= after.world.domain.policy_status);
    assert(made.world.domain.tools =~= after.world.domain.tools);
    assert(made.world.domain.tool_grants =~= after.world.domain.tool_grants);
    assert(made.world.domain.grant_for_agent =~= after.world.domain.grant_for_agent);
    assert(made.world.domain.grant_for_tool =~= after.world.domain.grant_for_tool);
    assert(made.world.domain.stores =~= after.world.domain.stores);
    assert(made.world.domain.store_grants =~= after.world.domain.store_grants);
    assert(made.world.domain.store_grant_for_agent =~= after.world.domain.store_grant_for_agent);
    assert(made.world.domain.store_grant_for_store =~= after.world.domain.store_grant_for_store);
    assert(made.world.domain.sources =~= after.world.domain.sources);
    assert(made.world.domain.discovered_from =~= after.world.domain.discovered_from);
    assert(made.world.domain.discovery_keys =~= after.world.domain.discovery_keys);
    assert(made.world.domain.retired =~= after.world.domain.retired);
    assert(made.world.domain =~= after.world.domain);
    assert(made.world =~= after.world);
}

proof fn lemma_store_restored(w: WorldView, s: DomainSnapshotView, n: int)
    requires
        restorable(w, s),
        0 <= n <= s.stores.len(),
    ensures
        s.stores.take(n).fold_left(
            restored_upto(w, s, o_stores(s)),
            |r: RestoreView, record: PersistedStoreView| restore_store(r, record),
        ) == restored_upto(w, s, o_stores(s) + n),
    decreases n,
{
    let step = |r: RestoreView, record: PersistedStoreView| restore_store(r, record);
    let start = restored_upto(w, s, o_stores(s));
    if n > 0 {
        lemma_store_restored(w, s, n - 1);
        lemma_store_step(w, s, n - 1);
        lemma_fold_next(s.stores, n - 1, start, step);
    } else {
        reveal_with_fuel(Seq::fold_left, 1);
        assert(s.stores.take(0).len() == 0);
    }
}

#[verifier::spinoff_prover]
#[verifier::rlimit(60)]
proof fn lemma_agent_step(w: WorldView, s: DomainSnapshotView, i: int)
    requires
        restorable(w, s),
        0 <= i < s.agents.len(),
    ensures
        restore_agent(restored_upto(w, s, o_agents(s) + i), s.agents[i]) == restored_upto(
            w,
            s,
            o_agents(s) + i + 1,
        ),
{
    let k = o_agents(s) + i;
    let before = restored_upto(w, s, k);
    let after = restored_upto(w, s, k + 1);
    let record = s.agents[i];
    assert(has_model(s, record.model_id));
    lemma_model_target(s, w.next, record.model_id, k);
    let made = restore_agent(before, s.agents[i]);
    lemma_mapped_next(w, s, k);
    assert(id_at(s, k) == s.agents[i].id);
    assert(tenant_at(s, k) == s.agents[i].tenant);
    assert(made.world.stable_ids =~= after.world.stable_ids);
    assert(made.world.tenants =~= after.world.tenants);
    assert(made.world.domain.agents =~= after.world.domain.agents);
    assert(made.world.domain.models =~= after.world.domain.models);
    assert(made.world.domain.uses_model =~= after.world.domain.uses_model);
    assert(made.world.domain.output_requirements =~= after.world.domain.output_requirements);
    assert(made.world.domain.retrieval_requirements =~= after.world.domain.retrieval_requirements);
    assert(made.world.domain.policies =~= after.world.domain.policies);
    assert(made.world.domain.policy_for =~= after.world.domain.policy_for);
    assert(made.world.domain.policy_status =~= after.world.domain.policy_status);
    assert(made.world.domain.tools =~= after.world.domain.tools);
    assert(made.world.domain.tool_grants =~= after.world.domain.tool_grants);
    assert(made.world.domain.grant_for_agent =~= after.world.domain.grant_for_agent);
    assert(made.world.domain.grant_for_tool =~= after.world.domain.grant_for_tool);
    assert(made.world.domain.stores =~= after.world.domain.stores);
    assert(made.world.domain.store_grants =~= after.world.domain.store_grants);
    assert(made.world.domain.store_grant_for_agent =~= after.world.domain.store_grant_for_agent);
    assert(made.world.domain.store_grant_for_store =~= after.world.domain.store_grant_for_store);
    assert(made.world.domain.sources =~= after.world.domain.sources);
    assert(made.world.domain.discovered_from =~= after.world.domain.discovered_from);
    assert(made.world.domain.discovery_keys =~= after.world.domain.discovery_keys);
    assert(made.world.domain.retired =~= after.world.domain.retired);
    assert(made.world.domain =~= after.world.domain);
    assert(made.world =~= after.world);
}

proof fn lemma_agent_restored(w: WorldView, s: DomainSnapshotView, n: int)
    requires
        restorable(w, s),
        0 <= n <= s.agents.len(),
    ensures
        s.agents.take(n).fold_left(
            restored_upto(w, s, o_agents(s)),
            |r: RestoreView, record: PersistedAgentView| restore_agent(r, record),
        ) == restored_upto(w, s, o_agents(s) + n),
    decreases n,
{
    let step = |r: RestoreView, record: PersistedAgentView| restore_agent(r, record);
    let start = restored_upto(w, s, o_agents(s));
    if n > 0 {
        lemma_agent_restored(w, s, n - 1);
        lemma_agent_step(w, s, n - 1);
        lemma_fold_next(s.agents, n - 1, start, step);
    } else {
        reveal_with_fuel(Seq::fold_left, 1);
        assert(s.agents.take(0).len() == 0);
    }
}

#[verifier::spinoff_prover]
#[verifier::rlimit(60)]
proof fn lemma_policy_step(w: WorldView, s: DomainSnapshotView, i: int)
    requires
        restorable(w, s),
        0 <= i < s.policies.len(),
    ensures
        restore_policy(restored_upto(w, s, o_policies(s) + i), s.policies[i]) == restored_upto(
            w,
            s,
            o_policies(s) + i + 1,
        ),
{
    let k = o_policies(s) + i;
    let before = restored_upto(w, s, k);
    let after = restored_upto(w, s, k + 1);
    let record = s.policies[i];
    assert(has_agent(s, record.agent_id));
    lemma_agent_target(s, w.next, record.agent_id, k);
    let made = restore_policy(before, s.policies[i]);
    lemma_mapped_next(w, s, k);
    assert(id_at(s, k) == s.policies[i].id);
    assert(tenant_at(s, k) == s.policies[i].tenant);
    assert(made.world.stable_ids =~= after.world.stable_ids);
    assert(made.world.tenants =~= after.world.tenants);
    assert(made.world.domain.agents =~= after.world.domain.agents);
    assert(made.world.domain.models =~= after.world.domain.models);
    assert(made.world.domain.uses_model =~= after.world.domain.uses_model);
    assert(made.world.domain.output_requirements =~= after.world.domain.output_requirements);
    assert(made.world.domain.retrieval_requirements =~= after.world.domain.retrieval_requirements);
    assert(made.world.domain.policies =~= after.world.domain.policies);
    assert(made.world.domain.policy_for =~= after.world.domain.policy_for);
    assert(made.world.domain.policy_status =~= after.world.domain.policy_status);
    assert(made.world.domain.tools =~= after.world.domain.tools);
    assert(made.world.domain.tool_grants =~= after.world.domain.tool_grants);
    assert(made.world.domain.grant_for_agent =~= after.world.domain.grant_for_agent);
    assert(made.world.domain.grant_for_tool =~= after.world.domain.grant_for_tool);
    assert(made.world.domain.stores =~= after.world.domain.stores);
    assert(made.world.domain.store_grants =~= after.world.domain.store_grants);
    assert(made.world.domain.store_grant_for_agent =~= after.world.domain.store_grant_for_agent);
    assert(made.world.domain.store_grant_for_store =~= after.world.domain.store_grant_for_store);
    assert(made.world.domain.sources =~= after.world.domain.sources);
    assert(made.world.domain.discovered_from =~= after.world.domain.discovered_from);
    assert(made.world.domain.discovery_keys =~= after.world.domain.discovery_keys);
    assert(made.world.domain.retired =~= after.world.domain.retired);
    assert(made.world.domain =~= after.world.domain);
    assert(made.world =~= after.world);
}

proof fn lemma_policy_restored(w: WorldView, s: DomainSnapshotView, n: int)
    requires
        restorable(w, s),
        0 <= n <= s.policies.len(),
    ensures
        s.policies.take(n).fold_left(
            restored_upto(w, s, o_policies(s)),
            |r: RestoreView, record: PersistedPolicyView| restore_policy(r, record),
        ) == restored_upto(w, s, o_policies(s) + n),
    decreases n,
{
    let step = |r: RestoreView, record: PersistedPolicyView| restore_policy(r, record);
    let start = restored_upto(w, s, o_policies(s));
    if n > 0 {
        lemma_policy_restored(w, s, n - 1);
        lemma_policy_step(w, s, n - 1);
        lemma_fold_next(s.policies, n - 1, start, step);
    } else {
        reveal_with_fuel(Seq::fold_left, 1);
        assert(s.policies.take(0).len() == 0);
    }
}

#[verifier::spinoff_prover]
#[verifier::rlimit(60)]
proof fn lemma_tool_grant_step(w: WorldView, s: DomainSnapshotView, i: int)
    requires
        restorable(w, s),
        0 <= i < s.tool_grants.len(),
    ensures
        restore_tool_grant(restored_upto(w, s, o_tool_grants(s) + i), s.tool_grants[i]) == restored_upto(
            w,
            s,
            o_tool_grants(s) + i + 1,
        ),
{
    let k = o_tool_grants(s) + i;
    let before = restored_upto(w, s, k);
    let after = restored_upto(w, s, k + 1);
    let record = s.tool_grants[i];
    assert(has_agent(s, record.agent_id));
    assert(has_tool(s, record.tool_id));
    lemma_agent_target(s, w.next, record.agent_id, k);
    lemma_tool_target(s, w.next, record.tool_id, k);
    let made = restore_tool_grant(before, s.tool_grants[i]);
    lemma_mapped_next(w, s, k);
    assert(id_at(s, k) == s.tool_grants[i].id);
    assert(tenant_at(s, k) == s.tool_grants[i].tenant);
    assert(made.world.stable_ids =~= after.world.stable_ids);
    assert(made.world.tenants =~= after.world.tenants);
    assert(made.world.domain.agents =~= after.world.domain.agents);
    assert(made.world.domain.models =~= after.world.domain.models);
    assert(made.world.domain.uses_model =~= after.world.domain.uses_model);
    assert(made.world.domain.output_requirements =~= after.world.domain.output_requirements);
    assert(made.world.domain.retrieval_requirements =~= after.world.domain.retrieval_requirements);
    assert(made.world.domain.policies =~= after.world.domain.policies);
    assert(made.world.domain.policy_for =~= after.world.domain.policy_for);
    assert(made.world.domain.policy_status =~= after.world.domain.policy_status);
    assert(made.world.domain.tools =~= after.world.domain.tools);
    assert(made.world.domain.tool_grants =~= after.world.domain.tool_grants);
    assert(made.world.domain.grant_for_agent =~= after.world.domain.grant_for_agent);
    assert(made.world.domain.grant_for_tool =~= after.world.domain.grant_for_tool);
    assert(made.world.domain.stores =~= after.world.domain.stores);
    assert(made.world.domain.store_grants =~= after.world.domain.store_grants);
    assert(made.world.domain.store_grant_for_agent =~= after.world.domain.store_grant_for_agent);
    assert(made.world.domain.store_grant_for_store =~= after.world.domain.store_grant_for_store);
    assert(made.world.domain.sources =~= after.world.domain.sources);
    assert(made.world.domain.discovered_from =~= after.world.domain.discovered_from);
    assert(made.world.domain.discovery_keys =~= after.world.domain.discovery_keys);
    assert(made.world.domain.retired =~= after.world.domain.retired);
    assert(made.world.domain =~= after.world.domain);
    assert(made.world =~= after.world);
}

proof fn lemma_tool_grant_restored(w: WorldView, s: DomainSnapshotView, n: int)
    requires
        restorable(w, s),
        0 <= n <= s.tool_grants.len(),
    ensures
        s.tool_grants.take(n).fold_left(
            restored_upto(w, s, o_tool_grants(s)),
            |r: RestoreView, record: PersistedToolGrantView| restore_tool_grant(r, record),
        ) == restored_upto(w, s, o_tool_grants(s) + n),
    decreases n,
{
    let step = |r: RestoreView, record: PersistedToolGrantView| restore_tool_grant(r, record);
    let start = restored_upto(w, s, o_tool_grants(s));
    if n > 0 {
        lemma_tool_grant_restored(w, s, n - 1);
        lemma_tool_grant_step(w, s, n - 1);
        lemma_fold_next(s.tool_grants, n - 1, start, step);
    } else {
        reveal_with_fuel(Seq::fold_left, 1);
        assert(s.tool_grants.take(0).len() == 0);
    }
}

#[verifier::spinoff_prover]
#[verifier::rlimit(60)]
proof fn lemma_store_grant_step(w: WorldView, s: DomainSnapshotView, i: int)
    requires
        restorable(w, s),
        0 <= i < s.store_grants.len(),
    ensures
        restore_store_grant(restored_upto(w, s, o_store_grants(s) + i), s.store_grants[i]) == restored_upto(
            w,
            s,
            o_store_grants(s) + i + 1,
        ),
{
    let k = o_store_grants(s) + i;
    let before = restored_upto(w, s, k);
    let after = restored_upto(w, s, k + 1);
    let record = s.store_grants[i];
    assert(has_agent(s, record.agent_id));
    assert(has_store(s, record.store_id));
    lemma_agent_target(s, w.next, record.agent_id, k);
    lemma_store_target(s, w.next, record.store_id, k);
    let made = restore_store_grant(before, s.store_grants[i]);
    lemma_mapped_next(w, s, k);
    assert(id_at(s, k) == s.store_grants[i].id);
    assert(tenant_at(s, k) == s.store_grants[i].tenant);
    assert(made.world.stable_ids =~= after.world.stable_ids);
    assert(made.world.tenants =~= after.world.tenants);
    assert(made.world.domain.agents =~= after.world.domain.agents);
    assert(made.world.domain.models =~= after.world.domain.models);
    assert(made.world.domain.uses_model =~= after.world.domain.uses_model);
    assert(made.world.domain.output_requirements =~= after.world.domain.output_requirements);
    assert(made.world.domain.retrieval_requirements =~= after.world.domain.retrieval_requirements);
    assert(made.world.domain.policies =~= after.world.domain.policies);
    assert(made.world.domain.policy_for =~= after.world.domain.policy_for);
    assert(made.world.domain.policy_status =~= after.world.domain.policy_status);
    assert(made.world.domain.tools =~= after.world.domain.tools);
    assert(made.world.domain.tool_grants =~= after.world.domain.tool_grants);
    assert(made.world.domain.grant_for_agent =~= after.world.domain.grant_for_agent);
    assert(made.world.domain.grant_for_tool =~= after.world.domain.grant_for_tool);
    assert(made.world.domain.stores =~= after.world.domain.stores);
    assert(made.world.domain.store_grants =~= after.world.domain.store_grants);
    assert(made.world.domain.store_grant_for_agent =~= after.world.domain.store_grant_for_agent);
    assert(made.world.domain.store_grant_for_store =~= after.world.domain.store_grant_for_store);
    assert(made.world.domain.sources =~= after.world.domain.sources);
    assert(made.world.domain.discovered_from =~= after.world.domain.discovered_from);
    assert(made.world.domain.discovery_keys =~= after.world.domain.discovery_keys);
    assert(made.world.domain.retired =~= after.world.domain.retired);
    assert(made.world.domain =~= after.world.domain);
    assert(made.world =~= after.world);
}

proof fn lemma_store_grant_restored(w: WorldView, s: DomainSnapshotView, n: int)
    requires
        restorable(w, s),
        0 <= n <= s.store_grants.len(),
    ensures
        s.store_grants.take(n).fold_left(
            restored_upto(w, s, o_store_grants(s)),
            |r: RestoreView, record: PersistedStoreGrantView| restore_store_grant(r, record),
        ) == restored_upto(w, s, o_store_grants(s) + n),
    decreases n,
{
    let step = |r: RestoreView, record: PersistedStoreGrantView| restore_store_grant(r, record);
    let start = restored_upto(w, s, o_store_grants(s));
    if n > 0 {
        lemma_store_grant_restored(w, s, n - 1);
        lemma_store_grant_step(w, s, n - 1);
        lemma_fold_next(s.store_grants, n - 1, start, step);
    } else {
        reveal_with_fuel(Seq::fold_left, 1);
        assert(s.store_grants.take(0).len() == 0);
    }
}

proof fn lemma_bare_start(w: WorldView, s: DomainSnapshotView)
    requires
        restorable(w, s),
    ensures
        id_index(w) == Map::<Seq<char>, Entity>::empty(),
        (RestoreView { world: w, mapped: id_index(w) }) == restored_upto(w, s, 0),
{
    lemma_empty_entities();
    assert(w.stable_ids.dom() =~= Set::<Entity>::empty());
    reveal_with_fuel(Seq::fold_left, 1);
    let start = restored_upto(w, s, 0);
    assert(id_index(w) =~= Map::<Seq<char>, Entity>::empty());
    assert forall|e: Entity| #[trigger] w.tenants.contains_key(e) implies e.0 < w.next by {
        if w.next <= e.0 {
            assert(is_blank_entity(w, e));
        }
    }
    assert forall|e: Entity| #[trigger] w.domain.agents.contains_key(e) implies e.0 < w.next by {
        if w.next <= e.0 {
            assert(is_blank_entity(w, e));
        }
    }
    assert forall|e: Entity| #[trigger] w.domain.models.contains_key(e) implies e.0 < w.next by {
        if w.next <= e.0 {
            assert(is_blank_entity(w, e));
        }
    }
    assert forall|e: Entity| #[trigger] w.domain.uses_model.contains_key(e) implies e.0 < w.next by {
        if w.next <= e.0 {
            assert(is_blank_entity(w, e));
        }
    }
    assert forall|e: Entity| #[trigger] w.domain.output_requirements.contains_key(e) implies e.0 < w.next by {
        if w.next <= e.0 {
            assert(is_blank_entity(w, e));
        }
    }
    assert forall|e: Entity| #[trigger] w.domain.retrieval_requirements.contains_key(e) implies e.0 < w.next by {
        if w.next <= e.0 {
            assert(is_blank_entity(w, e));
        }
    }
    assert forall|e: Entity| #[trigger] w.domain.policies.contains_key(e) implies e.0 < w.next by {
        if w.next <= e.0 {
            assert(is_blank_entity(w, e));
        }
    }
    assert forall|e: Entity| #[trigger] w.domain.policy_for.contains_key(e) implies e.0 < w.next by {
        if w.next <= e.0 {
            assert(is_blank_entity(w, e));
        }
    }
    assert forall|e: Entity| #[trigger] w.domain.tools.contains_key(e) implies e.0 < w.next by {
        if w.next <= e.0 {
            assert(is_blank_entity(w, e));
        }
    }
    assert forall|e: Entity| #[trigger] w.domain.tool_grants.contains_key(e) implies e.0 < w.next by {
        if w.next <= e.0 {
            assert(is_blank_entity(w, e));
        }
    }
    assert forall|e: Entity| #[trigger] w.domain.grant_for_agent.contains_key(e) implies e.0 < w.next by {
        if w.next <= e.0 {
            assert(is_blank_entity(w, e));
        }
    }
    assert forall|e: Entity| #[trigger] w.domain.grant_for_tool.contains_key(e) implies e.0 < w.next by {
        if w.next <= e.0 {
            assert(is_blank_entity(w, e));
        }
    }
    assert forall|e: Entity| #[trigger] w.domain.stores.contains_key(e) implies e.0 < w.next by {
        if w.next <= e.0 {
            assert(is_blank_entity(w, e));
        }
    }
    assert forall|e: Entity| #[trigger] w.domain.store_grants.contains_key(e) implies e.0 < w.next by {
        if w.next <= e.0 {
            assert(is_blank_entity(w, e));
        }
    }
    assert forall|e: Entity| #[trigger] w.domain.store_grant_for_agent.contains_key(e) implies e.0 < w.next by {
        if w.next <= e.0 {
            assert(is_blank_entity(w, e));
        }
    }
    assert forall|e: Entity| #[trigger] w.domain.store_grant_for_store.contains_key(e) implies e.0 < w.next by {
        if w.next <= e.0 {
            assert(is_blank_entity(w, e));
        }
    }
    assert forall|e: Entity| #[trigger] w.domain.sources.contains_key(e) implies e.0 < w.next by {
        if w.next <= e.0 {
            assert(is_blank_entity(w, e));
        }
    }
    assert forall|e: Entity| #[trigger] w.domain.discovered_from.contains_key(e) implies e.0 < w.next by {
        if w.next <= e.0 {
            assert(is_blank_entity(w, e));
        }
    }
    assert forall|e: Entity| #[trigger] w.domain.discovery_keys.contains_key(e) implies e.0 < w.next by {
        if w.next <= e.0 {
            assert(is_blank_entity(w, e));
        }
    }
    assert(start.world.stable_ids =~= w.stable_ids);
    assert(start.world.tenants =~= w.tenants);
    assert(start.world.domain.agents =~= w.domain.agents);
    assert(start.world.domain.models =~= w.domain.models);
    assert(start.world.domain.uses_model =~= w.domain.uses_model);
    assert(start.world.domain.output_requirements =~= w.domain.output_requirements);
    assert(start.world.domain.retrieval_requirements =~= w.domain.retrieval_requirements);
    assert(start.world.domain.policies =~= w.domain.policies);
    assert(start.world.domain.policy_for =~= w.domain.policy_for);
    assert(start.world.domain.policy_status =~= w.domain.policy_status);
    assert(start.world.domain.tools =~= w.domain.tools);
    assert(start.world.domain.tool_grants =~= w.domain.tool_grants);
    assert(start.world.domain.grant_for_agent =~= w.domain.grant_for_agent);
    assert(start.world.domain.grant_for_tool =~= w.domain.grant_for_tool);
    assert(start.world.domain.stores =~= w.domain.stores);
    assert(start.world.domain.store_grants =~= w.domain.store_grants);
    assert(start.world.domain.store_grant_for_agent =~= w.domain.store_grant_for_agent);
    assert(start.world.domain.store_grant_for_store =~= w.domain.store_grant_for_store);
    assert(start.world.domain.sources =~= w.domain.sources);
    assert(start.world.domain.discovered_from =~= w.domain.discovered_from);
    assert(start.world.domain.discovery_keys =~= w.domain.discovery_keys);
    assert(start.world.domain.retired =~= w.domain.retired);
    assert(start.world.domain =~= w.domain);
    assert(start.world =~= w);
    assert(start.mapped =~= id_index(w));
}

proof fn lemma_empty_entities()
    ensures
        entities_of(Set::<Entity>::empty()) == Seq::<Entity>::empty(),
{
    let none = Seq::<Entity>::empty();
    assert(none.to_set() =~= Set::<Entity>::empty());
    lemma_ascending_entities(none);
}

/// What a snapshot becomes in a world without entities.
#[verifier::spinoff_prover]
#[verifier::rlimit(100)]
proof fn lemma_restored(w: WorldView, s: DomainSnapshotView)
    requires
        restorable(w, s),
    ensures
        restored(w, s) == restored_upto(w, s, record_count(s) as int),
{
    lemma_bare_start(w, s);
    lemma_source_restored(w, s, s.discovery_sources.len() as int);
    assert(s.discovery_sources.take(s.discovery_sources.len() as int) =~= s.discovery_sources);
    lemma_model_restored(w, s, s.models.len() as int);
    assert(s.models.take(s.models.len() as int) =~= s.models);
    lemma_tool_restored(w, s, s.tools.len() as int);
    assert(s.tools.take(s.tools.len() as int) =~= s.tools);
    lemma_store_restored(w, s, s.stores.len() as int);
    assert(s.stores.take(s.stores.len() as int) =~= s.stores);
    lemma_agent_restored(w, s, s.agents.len() as int);
    assert(s.agents.take(s.agents.len() as int) =~= s.agents);
    lemma_policy_restored(w, s, s.policies.len() as int);
    assert(s.policies.take(s.policies.len() as int) =~= s.policies);
    lemma_tool_grant_restored(w, s, s.tool_grants.len() as int);
    assert(s.tool_grants.take(s.tool_grants.len() as int) =~= s.tool_grants);
    lemma_store_grant_restored(w, s, s.store_grants.len() as int);
    assert(s.store_grants.take(s.store_grants.len() as int) =~= s.store_grants);
}

/// What is picked from a range of items only.
proof fn lemma_picked_range<A, B>(
    items: Seq<A>,
    pick: spec_fn(A) -> Option<B>,
    lo: int,
    picks: Seq<B>,
    n: int,
)
    requires
        0 <= lo,
        lo + picks.len() <= items.len(),
        0 <= n <= items.len(),
        forall|j: int|
            0 <= j < items.len() ==> #[trigger] pick(items[j]) == (if lo <= j < lo + picks.len() {
                Some(picks[j - lo])
            } else {
                None
            }),
    ensures
        picked(items.take(n), pick) == picks.take(
            if n <= lo {
                0
            } else if n <= lo + picks.len() {
                n - lo
            } else {
                picks.len() as int
            },
        ),
    decreases n,
{
    if n > 0 {
        lemma_picked_range(items, pick, lo, picks, n - 1);
        lemma_picked_next(items, n - 1, pick);
        assert(pick(items[n - 1]) == (if lo <= n - 1 < lo + picks.len() {
            Some(picks[n - 1 - lo])
        } else {
            None
        }));
        if lo < n <= lo + picks.len() {
            assert(picks.take(n - lo) =~= picks.take(n - 1 - lo).push(picks[n - 1 - lo]));
        }
    } else {
        assert(items.take(0) =~= Seq::empty());
        assert(picks.take(0) =~= Seq::empty());
    }
}

/// Rows in order stay where they are.
proof fn lemma_sorted_rows_stay<V>(rows: Seq<(KeyView, V)>)
    requires
        is_sorted(rows),
    ensures
        sort_rows(rows) == rows,
    decreases rows.len(),
{
    if rows.len() > 0 {
        let front = rows.drop_last();
        assert forall|i: int, j: int| 0 <= i <= j < front.len() implies key_le(
            (#[trigger] front[i]).0,
            (#[trigger] front[j]).0,
        ) by {
            assert(key_le(rows[i].0, rows[j].0));
        }
        lemma_sorted_rows_stay(front);
        if front.len() > 0 {
            assert(key_le(rows[rows.len() - 2].0, rows[rows.len() - 1].0));
        }
        assert(place_row(front, rows.last()) =~= rows);
    }
}

/// Records of one kind, each with its id as the key.
pub open spec fn keyed<V>(records: Seq<V>, id: spec_fn(V) -> Seq<char>) -> Seq<(KeyView, V)> {
    Seq::new(records.len(), |i: int| (id_key(id(records[i])), records[i]))
}

/// Records in the order of their ids.
pub open spec fn by_id<V>(records: Seq<V>, id: spec_fn(V) -> Seq<char>) -> Seq<V> {
    row_values(sort_rows(keyed(records, id)))
}

/// A snapshot with the records of each kind in the order of their ids.
pub open spec fn in_order(s: DomainSnapshotView) -> DomainSnapshotView {
    DomainSnapshotView {
        discovery_sources: by_id(s.discovery_sources, |r: PersistedDiscoverySourceView| r.id),
        models: by_id(s.models, |r: PersistedModelView| r.id),
        agents: by_id(s.agents, |r: PersistedAgentView| r.id),
        policies: by_id(s.policies, |r: PersistedPolicyView| r.id),
        tools: by_id(s.tools, |r: PersistedToolView| r.id),
        tool_grants: by_id(s.tool_grants, |r: PersistedToolGrantView| r.id),
        stores: by_id(s.stores, |r: PersistedStoreView| r.id),
        store_grants: by_id(s.store_grants, |r: PersistedStoreGrantView| r.id),
    }
}

/// Whether records stand in the order of their ids.
pub open spec fn in_id_order<V>(records: Seq<V>, id: spec_fn(V) -> Seq<char>) -> bool {
    forall|i: int, j: int|
        0 <= i <= j < records.len() ==> key_le(
            id_key(id(#[trigger] records[i])),
            id_key(id(#[trigger] records[j])),
        )
}

/// Whether the records of each kind stand in the order of their ids.
pub open spec fn is_ordered(s: DomainSnapshotView) -> bool {
    &&& in_id_order(s.discovery_sources, |r: PersistedDiscoverySourceView| r.id)
    &&& in_id_order(s.models, |r: PersistedModelView| r.id)
    &&& in_id_order(s.tools, |r: PersistedToolView| r.id)
    &&& in_id_order(s.stores, |r: PersistedStoreView| r.id)
    &&& in_id_order(s.agents, |r: PersistedAgentView| r.id)
    &&& in_id_order(s.policies, |r: PersistedPolicyView| r.id)
    &&& in_id_order(s.tool_grants, |r: PersistedToolGrantView| r.id)
    &&& in_id_order(s.store_grants, |r: PersistedStoreGrantView| r.id)
}

proof fn lemma_records_read_back<V>(
    items: Seq<Entity>,
    row: spec_fn(Entity) -> Option<(KeyView, V)>,
    lo: int,
    records: Seq<V>,
    id: spec_fn(V) -> Seq<char>,
)
    requires
        0 <= lo,
        lo + records.len() <= items.len(),
        forall|j: int|
            0 <= j < items.len() ==> #[trigger] row(items[j]) == (if lo <= j < lo
                + records.len() {
                Some((id_key(id(records[j - lo])), records[j - lo]))
            } else {
                None
            }),
    ensures
        sorted_records(items, row) == by_id(records, id),
{
    let rows = keyed(records, id);
    assert forall|j: int| 0 <= j < items.len() implies #[trigger] row(items[j]) == (if lo <= j
        < lo + rows.len() {
        Some(rows[j - lo])
    } else {
        None
    }) by {}
    lemma_picked_range(items, row, lo, rows, items.len() as int);
    assert(items.take(items.len() as int) =~= items);
    assert(rows.take(rows.len() as int) =~= rows);
    if items.len() <= lo {
        assert(rows =~= Seq::empty());
    }
    assert(picked(items, row) == rows);
}

/// Records in the order of their ids stay as they are.
proof fn lemma_ordered_stay<V>(records: Seq<V>, id: spec_fn(V) -> Seq<char>)
    requires
        in_id_order(records, id),
    ensures
        by_id(records, id) == records,
{
    let rows = keyed(records, id);
    assert(is_sorted(rows)) by {
        assert forall|i: int, j: int| 0 <= i <= j < rows.len() implies key_le(
            (#[trigger] rows[i]).0,
            (#[trigger] rows[j]).0,
        ) by {
            assert(key_le(id_key(id(records[i])), id_key(id(records[j]))));
        }
    }
    lemma_sorted_rows_stay(rows);
    assert(row_values(rows) =~= records);
}

/// The entities of a restored world, in the order in which they were made.
spec fn made_entities(w: WorldView, s: DomainSnapshotView) -> Seq<Entity> {
    Seq::new(record_count(s), |j: int| Entity((w.next + j) as u64))
}

proof fn lemma_made_entities(w: WorldView, s: DomainSnapshotView)
    requires
        restorable(w, s),
    ensures
        entities_of(restored_upto(w, s, record_count(s) as int).world.stable_ids.dom())
            == made_entities(w, s),
{
    let ids = made_entities(w, s);
    let v = restored_upto(w, s, record_count(s) as int).world;
    assert(strictly_ascending(ids));
    assert forall|e: Entity| ids.to_set().contains(e) <==> v.stable_ids.dom().contains(e) by {
        if v.stable_ids.dom().contains(e) {
            assert(ids[e.0 - w.next] == e);
        }
    }
    assert(ids.to_set() =~= v.stable_ids.dom());
    lemma_ascending_entities(ids);
}

#[verifier::spinoff_prover]
#[verifier::rlimit(60)]
proof fn lemma_source_read_back(w: WorldView, s: DomainSnapshotView)
    requires
        restorable(w, s),
    ensures
        ({
            let v = restored_upto(w, s, record_count(s) as int).world;
            sorted_records(made_entities(w, s), |e: Entity| source_row(v, e))
                == in_order(s).discovery_sources
        }),
{
    let n = record_count(s) as int;
    let v = restored_upto(w, s, n).world;
    let items = made_entities(w, s);
    let row = |e: Entity| source_row(v, e);
    let id = |r: PersistedDiscoverySourceView| r.id;
    assert forall|j: int| 0 <= j < items.len() implies #[trigger] row(items[j]) == (if o_discovery_sources(s)
        <= j < o_discovery_sources(s) + s.discovery_sources.len() {
        Some((id_key(id(s.discovery_sources[j - o_discovery_sources(s)])), s.discovery_sources[j - o_discovery_sources(s)]))
    } else {
        None
    }) by {
        let e = items[j];
        assert(e.0 == w.next + j);
    }
    lemma_records_read_back(items, row, o_discovery_sources(s), s.discovery_sources, id);
}

#[verifier::spinoff_prover]
#[verifier::rlimit(60)]
proof fn lemma_model_read_back(w: WorldView, s: DomainSnapshotView)
    requires
        restorable(w, s),
    ensures
        ({
            let v = restored_upto(w, s, record_count(s) as int).world;
            sorted_records(made_entities(w, s), |e: Entity| model_row(v, e))
                == in_order(s).models
        }),
{
    let n = record_count(s) as int;
    let v = restored_upto(w, s, n).world;
    let items = made_entities(w, s);
    let row = |e: Entity| model_row(v, e);
    let id = |r: PersistedModelView| r.id;
    assert forall|j: int| 0 <= j < items.len() implies #[trigger] row(items[j]) == (if o_models(s)
        <= j < o_models(s) + s.models.len() {
        Some((id_key(id(s.models[j - o_models(s)])), s.models[j - o_models(s)]))
    } else {
        None
    }) by {
        let e = items[j];
        assert(e.0 == w.next + j);
    }
    lemma_records_read_back(items, row, o_models(s), s.models, id);
}

#[verifier::spinoff_prover]
#[verifier::rlimit(60)]
proof fn lemma_tool_read_back(w: WorldView, s: DomainSnapshotView)
    requires
        restorable(w, s),
    ensures
        ({
            let v = restored_upto(w, s, record_count(s) as int).world;
            sorted_records(made_entities(w, s), |e: Entity| tool_row(v, e))
                == in_order(s).tools
        }),
        ({
            let v = restored_upto(w, s, record_count(s) as int).world;
            first_picked(made_entities(w, s), |e: Entity| stale_tool(v, e), 0) is None
        }),
{
    let n = record_count(s) as int;
    let v = restored_upto(w, s, n).world;
    let items = made_entities(w, s);
    let row = |e: Entity| tool_row(v, e);
    let id = |r: PersistedToolView| r.id;
    assert forall|j: int| 0 <= j < items.len() implies #[trigger] row(items[j]) == (if o_tools(s)
        <= j < o_tools(s) + s.tools.len() {
        Some((id_key(id(s.tools[j - o_tools(s)])), s.tools[j - o_tools(s)]))
    } else {
        None
    }) by {
        let e = items[j];
        assert(e.0 == w.next + j);
            if o_tools(s) <= j < o_tools(s) + s.tools.len() {
                let record = s.tools[j - o_tools(s)];
                assert(has_provenance(s, record));
                if record.source_id is Some {
                    lemma_source_target(s, w.next, record.source_id->0, n);
                }
            }
    }
    lemma_records_read_back(items, row, o_tools(s), s.tools, id);
    let stale = |e: Entity| stale_tool(v, e);
    assert forall|j: int| 0 <= j < items.len() implies #[trigger] stale(items[j]) is None by {
        let e = items[j];
        assert(e.0 == w.next + j);
            if o_tools(s) <= j < o_tools(s) + s.tools.len() {
                let record = s.tools[j - o_tools(s)];
                assert(has_provenance(s, record));
                if record.source_id is Some {
                    lemma_source_target(s, w.next, record.source_id->0, n);
                }
            }
    }
    lemma_none_picked(items, stale, 0);
}

#[verifier::spinoff_prover]
#[verifier::rlimit(60)]
proof fn lemma_store_read_back(w: WorldView, s: DomainSnapshotView)
    requires
        restorable(w, s),
    ensures
        ({
            let v = restored_upto(w, s, record_count(s) as int).world;
            sorted_records(made_entities(w, s), |e: Entity| store_row(v, e))
                == in_order(s).stores
        }),
{
    let n = record_count(s) as int;
    let v = restored_upto(w, s, n).world;
    let items = made_entities(w, s);
    let row = |e: Entity| store_row(v, e);
    let id = |r: PersistedStoreView| r.id;
    assert forall|j: int| 0 <= j < items.len() implies #[trigger] row(items[j]) == (if o_stores(s)
        <= j < o_stores(s) + s.stores.len() {
        Some((id_key(id(s.stores[j - o_stores(s)])), s.stores[j - o_stores(s)]))
    } else {
        None
    }) by {
        let e = items[j];
        assert(e.0 == w.next + j);
    }
    lemma_records_read_back(items, row, o_stores(s), s.stores, id);
}

#[verifier::spinoff_prover]
#[verifier::rlimit(60)]
proof fn lemma_agent_read_back(w: WorldView, s: DomainSnapshotView)
    requires
        restorable(w, s),
    ensures
        ({
            let v = restored_upto(w, s, record_count(s) as int).world;
            sorted_records(made_entities(w, s), |e: Entity| agent_row(v, e))
                == in_order(s).agents
        }),
        ({
            let v = restored_upto(w, s, record_count(s) as int).world;
            first_picked(made_entities(w, s), |e: Entity| stale_agent(v, e), 0) is None
        }),
{
    let n = record_count(s) as int;
    let v = restored_upto(w, s, n).world;
    let items = made_entities(w, s);
    let row = |e: Entity| agent_row(v, e);
    let id = |r: PersistedAgentView| r.id;
    assert forall|j: int| 0 <= j < items.len() implies #[trigger] row(items[j]) == (if o_agents(s)
        <= j < o_agents(s) + s.agents.len() {
        Some((id_key(id(s.agents[j - o_agents(s)])), s.agents[j - o_agents(s)]))
    } else {
        None
    }) by {
        let e = items[j];
        assert(e.0 == w.next + j);
            if o_agents(s) <= j < o_agents(s) + s.agents.len() {
                let record = s.agents[j - o_agents(s)];
                assert(has_model(s, record.model_id));
                lemma_model_target(s, w.next, record.model_id, n);
            }
    }
    lemma_records_read_back(items, row, o_agents(s), s.agents, id);
    let stale = |e: Entity| stale_agent(v, e);
    assert forall|j: int| 0 <= j < items.len() implies #[trigger] stale(items[j]) is None by {
        let e = items[j];
        assert(e.0 == w.next + j);
            if o_agents(s) <= j < o_agents(s) + s.agents.len() {
                let record = s.agents[j - o_agents(s)];
                assert(has_model(s, record.model_id));
                lemma_model_target(s, w.next, record.model_id, n);
            }
    }
    lemma_none_picked(items, stale, 0);
}

#[verifier::spinoff_prover]
#[verifier::rlimit(60)]
proof fn lemma_policy_read_back(w: WorldView, s: DomainSnapshotView)
    requires
        restorable(w, s),
    ensures
        ({
            let v = restored_upto(w, s, record_count(s) as int).world;
            sorted_records(made_entities(w, s), |e: Entity| policy_row(v, e))
                == in_order(s).policies
        }),
        ({
            let v = restored_upto(w, s, record_count(s) as int).world;
            first_picked(made_entities(w, s), |e: Entity| stale_policy(v, e), 0) is None
        }),
{
    let n = record_count(s) as int;
    let v = restored_upto(w, s, n).world;
    let items = made_entities(w, s);
    let row = |e: Entity| policy_row(v, e);
    let id = |r: PersistedPolicyView| r.id;
    assert forall|j: int| 0 <= j < items.len() implies #[trigger] row(items[j]) == (if o_policies(s)
        <= j < o_policies(s) + s.policies.len() {
        Some((id_key(id(s.policies[j - o_policies(s)])), s.policies[j - o_policies(s)]))
    } else {
        None
    }) by {
        let e = items[j];
        assert(e.0 == w.next + j);
            if o_policies(s) <= j < o_policies(s) + s.policies.len() {
                let record = s.policies[j - o_policies(s)];
                assert(has_agent(s, record.agent_id));
                lemma_agent_target(s, w.next, record.agent_id, n);
            }
    }
    lemma_records_read_back(items, row, o_policies(s), s.policies, id);
    let stale = |e: Entity| stale_policy(v, e);
    assert forall|j: int| 0 <= j < items.len() implies #[trigger] stale(items[j]) is None by {
        let e = items[j];
        assert(e.0 == w.next + j);
            if o_policies(s) <= j < o_policies(s) + s.policies.len() {
                let record = s.policies[j - o_policies(s)];
                assert(has_agent(s, record.agent_id));
                lemma_agent_target(s, w.next, record.agent_id, n);
            }
    }
    lemma_none_picked(items, stale, 0);
}

#[verifier::spinoff_prover]
#[verifier::rlimit(60)]
proof fn lemma_tool_grant_read_back(w: WorldView, s: DomainSnapshotView)
    requires
        restorable(w, s),
    ensures
        ({
            let v = restored_upto(w, s, record_count(s) as int).world;
            sorted_records(made_entities(w, s), |e: Entity| tool_grant_row(v, e))
                == in_order(s).tool_grants
        }),
        ({
            let v = restored_upto(w, s, record_count(s) as int).world;
            first_picked(made_entities(w, s), |e: Entity| stale_tool_grant(v, e), 0) is None
        }),
{
    let n = record_count(s) as int;
    let v = restored_upto(w, s, n).world;
    let items = made_entities(w, s);
    let row = |e: Entity| tool_grant_row(v, e);
    let id = |r: PersistedToolGrantView| r.id;
    assert forall|j: int| 0 <= j < items.len() implies #[trigger] row(items[j]) == (if o_tool_grants(s)
        <= j < o_tool_grants(s) + s.tool_grants.len() {
        Some((id_key(id(s.tool_grants[j - o_tool_grants(s)])), s.tool_grants[j - o_tool_grants(s)]))
    } else {
        None
    }) by {
        let e = items[j];
        assert(e.0 == w.next + j);
            if o_tool_grants(s) <= j < o_tool_grants(s) + s.tool_grants.len() {
                let record = s.tool_grants[j - o_tool_grants(s)];
                assert(has_agent(s, record.agent_id));
                assert(has_tool(s, record.tool_id));
                lemma_agent_target(s, w.next, record.agent_id, n);
                lemma_tool_target(s, w.next, record.tool_id, n);
            }
    }
    lemma_records_read_back(items, row, o_tool_grants(s), s.tool_grants, id);
    let stale = |e: Entity| stale_tool_grant(v, e);
    assert forall|j: int| 0 <= j < items.len() implies #[trigger] stale(items[j]) is None by {
        let e = items[j];
        assert(e.0 == w.next + j);
            if o_tool_grants(s) <= j < o_tool_grants(s) + s.tool_grants.len() {
                let record = s.tool_grants[j - o_tool_grants(s)];
                assert(has_agent(s, record.agent_id));
                assert(has_tool(s, record.tool_id));
                lemma_agent_target(s, w.next, record.agent_id, n);
                lemma_tool_target(s, w.next, record.tool_id, n);
            }
    }
    lemma_none_picked(items, stale, 0);
}

#[verifier::spinoff_prover]
#[verifier::rlimit(60)]
proof fn lemma_store_grant_read_back(w: WorldView, s: DomainSnapshotView)
    requires
        restorable(w, s),
    ensures
        ({
            let v = restored_upto(w, s, record_count(s) as int).world;
            sorted_records(made_entities(w, s), |e: Entity| store_grant_row(v, e))
                == in_order(s).store_grants
        }),
        ({
            let v = restored_upto(w, s, record_count(s) as int).world;
            first_picked(made_entities(w, s), |e: Entity| stale_store_grant(v, e), 0) is None
        }),
{
    let n = record_count(s) as int;
    let v = restored_upto(w, s, n).world;
    let items = made_entities(w, s);
    let row = |e: Entity| store_grant_row(v, e);
    let id = |r: PersistedStoreGrantView| r.id;
    assert forall|j: int| 0 <= j < items.len() implies #[trigger] row(items[j]) == (if o_store_grants(s)
        <= j < o_store_grants(s) + s.store_grants.len() {
        Some((id_key(id(s.store_grants[j - o_store_grants(s)])), s.store_grants[j - o_store_grants(s)]))
    } else {
        None
    }) by {
        let e = items[j];
        assert(e.0 == w.next + j);
            if o_store_grants(s) <= j < o_store_grants(s) + s.store_grants.len() {
                let record = s.store_grants[j - o_store_grants(s)];
                assert(has_agent(s, record.agent_id));
                assert(has_store(s, record.store_id));
                lemma_agent_target(s, w.next, record.agent_id, n);
                lemma_store_target(s, w.next, record.store_id, n);
            }
    }
    lemma_records_read_back(items, row, o_store_grants(s), s.store_grants, id);
    let stale = |e: Entity| stale_store_grant(v, e);
    assert forall|j: int| 0 <= j < items.len() implies #[trigger] stale(items[j]) is None by {
        let e = items[j];
        assert(e.0 == w.next + j);
            if o_store_grants(s) <= j < o_store_grants(s) + s.store_grants.len() {
                let record = s.store_grants[j - o_store_grants(s)];
                assert(has_agent(s, record.agent_id));
                assert(has_store(s, record.store_id));
                lemma_agent_target(s, w.next, record.agent_id, n);
                lemma_store_target(s, w.next, record.store_id, n);
            }
    }
    lemma_none_picked(items, stale, 0);
}

proof fn lemma_none_picked<A, B>(items: Seq<A>, pick: spec_fn(A) -> Option<B>, from: int)
    requires
        forall|j: int| 0 <= j < items.len() ==> #[trigger] pick(items[j]) is None,
    ensures
        first_picked(items, pick, from) is None,
    decreases items.len() - from,
{
    if 0 <= from < items.len() {
        assert(pick(items[from]) is None);
        lemma_none_picked(items, pick, from + 1);
    }
}

proof fn lemma_tenants_added(
    tenants: Map<Seq<char>, Seq<char>>,
    records: Seq<(Seq<char>, Seq<char>)>,
    id: Seq<char>,
)
    ensures
        with_tenants(tenants, records).contains_key(id) ==> tenants.contains_key(id) || exists|
            j: int,
        |
            0 <= j < records.len() && (#[trigger] records[j]).0 == id,
    decreases records.len(),
{
    reveal_with_fuel(Seq::fold_left, 2);
    if records.len() > 0 {
        lemma_tenants_added(tenants, records.drop_last(), id);
        let before = with_tenants(tenants, records.drop_last());
        if before.contains_key(id) && !tenants.contains_key(id) {
            let j = choose|j: int|
                0 <= j < records.drop_last().len() && (#[trigger] records.drop_last()[j]).0 == id;
            assert(records[j].0 == id);
        }
        if records.last().0 == id {
            assert(records[records.len() - 1].0 == id);
        }
    }
}

proof fn lemma_bare_tenants(w: WorldView, kind: spec_fn(Entity) -> bool)
    requires
        is_bare(w),
    ensures
        kind_tenants(w, kind) == Map::<Seq<char>, Seq<char>>::empty(),
{
    lemma_empty_entities();
    assert(w.stable_ids.dom() =~= Set::<Entity>::empty());
    reveal_with_fuel(Seq::fold_left, 1);
}

proof fn lemma_model_known(w: WorldView, s: DomainSnapshotView, id: Seq<char>)
    requires
        is_bare(w),
        model_tenants(w, s).contains_key(id),
    ensures
        has_model(s, id),
{
    lemma_bare_tenants(w, |e: Entity| w.domain.models.contains_key(e));
    let records = Seq::new(s.models.len(), |i: int| (s.models[i].id, s.models[i].tenant));
    lemma_tenants_added(Map::empty(), records, id);
    let j = choose|j: int| 0 <= j < records.len() && (#[trigger] records[j]).0 == id;
    assert(s.models[j].id == id);
}

proof fn lemma_agent_known(w: WorldView, s: DomainSnapshotView, id: Seq<char>)
    requires
        is_bare(w),
        agent_tenants(w, s).contains_key(id),
    ensures
        has_agent(s, id),
{
    lemma_bare_tenants(w, |e: Entity| w.domain.agents.contains_key(e));
    let records = Seq::new(s.agents.len(), |i: int| (s.agents[i].id, s.agents[i].tenant));
    lemma_tenants_added(Map::empty(), records, id);
    let j = choose|j: int| 0 <= j < records.len() && (#[trigger] records[j]).0 == id;
    assert(s.agents[j].id == id);
}

proof fn lemma_source_known(w: WorldView, s: DomainSnapshotView, id: Seq<char>)
    requires
        is_bare(w),
        source_tenants(w, s).contains_key(id),
    ensures
        has_source(s, id),
{
    lemma_bare_tenants(w, |e: Entity| w.domain.sources.contains_key(e));
    let records = Seq::new(s.discovery_sources.len(), |i: int| (s.discovery_sources[i].id, s.discovery_sources[i].tenant));
    lemma_tenants_added(Map::empty(), records, id);
    let j = choose|j: int| 0 <= j < records.len() && (#[trigger] records[j]).0 == id;
    assert(s.discovery_sources[j].id == id);
}

proof fn lemma_tool_known(w: WorldView, s: DomainSnapshotView, id: Seq<char>)
    requires
        is_bare(w),
        tool_tenants(w, s).contains_key(id),
    ensures
        has_tool(s, id),
{
    lemma_bare_tenants(w, |e: Entity| w.domain.tools.contains_key(e));
    let records = Seq::new(s.tools.len(), |i: int| (s.tools[i].id, s.tools[i].tenant));
    lemma_tenants_added(Map::empty(), records, id);
    let j = choose|j: int| 0 <= j < records.len() && (#[trigger] records[j]).0 == id;
    assert(s.tools[j].id == id);
}

proof fn lemma_store_known(w: WorldView, s: DomainSnapshotView, id: Seq<char>)
    requires
        is_bare(w),
        store_tenants(w, s).contains_key(id),
    ensures
        has_store(s, id),
{
    lemma_bare_tenants(w, |e: Entity| w.domain.stores.contains_key(e));
    let records = Seq::new(s.stores.len(), |i: int| (s.stores[i].id, s.stores[i].tenant));
    lemma_tenants_added(Map::empty(), records, id);
    let j = choose|j: int| 0 <= j < records.len() && (#[trigger] records[j]).0 == id;
    assert(s.stores[j].id == id);
}

proof fn lemma_no_pick<A, B>(items: Seq<A>, pick: spec_fn(A) -> Option<B>, from: int, i: int)
    requires
        0 <= from <= i < items.len(),
        first_picked(items, pick, from) is None,
    ensures
        pick(items[i]) is None,
    decreases i - from,
{
    if from < i {
        lemma_no_pick(items, pick, from + 1, i);
    }
}

proof fn lemma_restorable(w: WorldView, s: DomainSnapshotView)
    requires
        is_bare(w),
        restore_fault(w, s) is None,
        w.next + record_count(s) <= u64::MAX,
    ensures
        restorable(w, s),
{
    lemma_distinct_ids(s, id_index(w));
    assert forall|i: int| 0 <= i < s.agents.len() implies has_model(
        s,
        (#[trigger] s.agents[i]).model_id,
    ) by {
        lemma_no_pick(s.agents, |r: PersistedAgentView| agent_fault(w, s, r), 0, i);
        lemma_model_known(w, s, s.agents[i].model_id);
    }
    assert forall|i: int| 0 <= i < s.policies.len() implies has_agent(
        s,
        (#[trigger] s.policies[i]).agent_id,
    ) by {
        lemma_no_pick(s.policies, |r: PersistedPolicyView| policy_fault(w, s, r), 0, i);
        lemma_agent_known(w, s, s.policies[i].agent_id);
    }
    assert forall|i: int| 0 <= i < s.tools.len() implies has_provenance(s, #[trigger] s.tools[i]) by {
        lemma_no_pick(
            s.tools,
            |r: PersistedToolView| provenance_fault(source_tenants(w, s), r),
            0,
            i,
        );
        if s.tools[i].source_id is Some && s.tools[i].discovery_key is Some {
            lemma_source_known(w, s, s.tools[i].source_id->0);
        }
    }
    assert forall|i: int| 0 <= i < s.tool_grants.len() implies has_agent(
        s,
        (#[trigger] s.tool_grants[i]).agent_id,
    ) && has_tool(s, s.tool_grants[i].tool_id) by {
        lemma_no_pick(s.tool_grants, |r: PersistedToolGrantView| tool_grant_fault(w, s, r), 0, i);
        lemma_agent_known(w, s, s.tool_grants[i].agent_id);
        lemma_tool_known(w, s, s.tool_grants[i].tool_id);
    }
    assert forall|i: int| 0 <= i < s.store_grants.len() implies has_agent(
        s,
        (#[trigger] s.store_grants[i]).agent_id,
    ) && has_store(s, s.store_grants[i].store_id) by {
        lemma_no_pick(
            s.store_grants,
            |r: PersistedStoreGrantView| store_grant_fault(w, s, r),
            0,
            i,
        );
        lemma_agent_known(w, s, s.store_grants[i].agent_id);
        lemma_store_known(w, s, s.store_grants[i].store_id);
    }
}

/// A snapshot that is restored into a world without identities reads back with its records in the
/// order of their ids: every record with its identity, its tenant and its relationships, and no
/// relationship is stale. (The entities must have numbers left.)
pub proof fn law_restored_snapshots_read_back(w: WorldView, s: DomainSnapshotView)
    requires
        is_bare(w),
        restore_fault(w, s) is None,
        w.next + record_count(s) <= u64::MAX,
    ensures
        first_stale(restored(w, s).world) is None,
        domain_records(restored(w, s).world) == in_order(s),
{
    lemma_restorable(w, s);
    lemma_restored(w, s);
    lemma_made_entities(w, s);
    lemma_source_read_back(w, s);
    lemma_model_read_back(w, s);
    lemma_tool_read_back(w, s);
    lemma_store_read_back(w, s);
    lemma_agent_read_back(w, s);
    lemma_policy_read_back(w, s);
    lemma_tool_grant_read_back(w, s);
    lemma_store_grant_read_back(w, s);
}

/// Whether a restoration has made entities for some of the ids: every id that it maps was known
/// before, or leads to a new entity with that id.
spec fn maps_new_entities(w: WorldView, r: RestoreView) -> bool {
    &&& w.next <= r.world.next
    &&& forall|id: Seq<char>| #[trigger]
        r.mapped.contains_key(id) ==> id_index(w).contains_key(id) || {
            &&& w.next <= r.mapped[id].0 < r.world.next
            &&& r.world.stable_ids.contains_key(r.mapped[id])
            &&& r.world.stable_ids[r.mapped[id]] == id
        }
}

/// Whether a step of a restoration makes one entity for the id of its record.
spec fn makes_entity(r: RestoreView, next: RestoreView, id: Seq<char>) -> bool {
    &&& next.mapped == r.mapped.insert(id, r.world.fresh())
    &&& next.world.stable_ids == r.world.stable_ids.insert(r.world.fresh(), id)
    &&& next.world.next == crate::world::number_after(r.world.next)
}

proof fn lemma_records_make_entities<A>(
    w: WorldView,
    start: RestoreView,
    records: Seq<A>,
    step: spec_fn(RestoreView, A) -> RestoreView,
    id: spec_fn(A) -> Seq<char>,
)
    requires
        maps_new_entities(w, start),
        start.world.next + records.len() <= u64::MAX,
        forall|r: RestoreView, a: A| makes_entity(r, #[trigger] step(r, a), id(a)),
    ensures
        ({
            let r = records.fold_left(start, step);
            &&& maps_new_entities(w, r)
            &&& r.world.next == start.world.next + records.len()
            &&& forall|i: Seq<char>| #[trigger]
                start.mapped.contains_key(i) ==> r.mapped.contains_key(i)
            &&& forall|k: int|
                0 <= k < records.len() ==> r.mapped.contains_key(id(#[trigger] records[k]))
        }),
    decreases records.len(),
{
    reveal_with_fuel(Seq::fold_left, 2);
    if records.len() > 0 {
        let front = records.drop_last();
        lemma_records_make_entities(w, start, front, step, id);
        let before = front.fold_left(start, step);
        let after = step(before, records.last());
        assert(makes_entity(before, after, id(records.last())));
        assert forall|k: int| 0 <= k < records.len() implies after.mapped.contains_key(
            id(#[trigger] records[k]),
        ) by {
            if k < front.len() {
                assert(front[k] == records[k]);
            }
        }
    }
}

/// A restoration tells the new entity of each record and nothing else: its keys are the ids of
/// the records, and each leads to an entity that the restoration made, with that id. (The
/// entities must have numbers left.)
#[verifier::spinoff_prover]
#[verifier::rlimit(60)]
pub proof fn law_restored_entities_are_new(w: WorldView, s: DomainSnapshotView, id: Seq<char>)
    requires
        restore_fault(w, s) is None,
        w.next + record_count(s) <= u64::MAX,
    ensures
        restored_entities(w, s).contains_key(id) <==> record_ids(s).contains(id),
        restored_entities(w, s).contains_key(id) ==> {
            let e = restored_entities(w, s)[id];
            &&& w.next <= e.0 < w.next + record_count(s)
            &&& restored(w, s).world.stable_ids.contains_key(e)
            &&& restored(w, s).world.stable_ids[e] == id
        },
{
    let r0 = RestoreView { world: w, mapped: id_index(w) };
    let f1 = |r: RestoreView, record: PersistedDiscoverySourceView| restore_source(r, record);
    lemma_records_make_entities(w, r0, s.discovery_sources, f1, |a: PersistedDiscoverySourceView| a.id);
    let r1 = s.discovery_sources.fold_left(r0, f1);
    let f2 = |r: RestoreView, record: PersistedModelView| restore_model(r, record);
    lemma_records_make_entities(w, r1, s.models, f2, |a: PersistedModelView| a.id);
    let r2 = s.models.fold_left(r1, f2);
    let f3 = |r: RestoreView, record: PersistedToolView| restore_tool(r, record);
    lemma_records_make_entities(w, r2, s.tools, f3, |a: PersistedToolView| a.id);
    let r3 = s.tools.fold_left(r2, f3);
    let f4 = |r: RestoreView, record: PersistedStoreView| restore_store(r, record);
    lemma_records_make_entities(w, r3, s.stores, f4, |a: PersistedStoreView| a.id);
    let r4 = s.stores.fold_left(r3, f4);
    let f5 = |r: RestoreView, record: PersistedAgentView| restore_agent(r, record);
    lemma_records_make_entities(w, r4, s.agents, f5, |a: PersistedAgentView| a.id);
    let r5 = s.agents.fold_left(r4, f5);
    let f6 = |r: RestoreView, record: PersistedPolicyView| restore_policy(r, record);
    lemma_records_make_entities(w, r5, s.policies, f6, |a: PersistedPolicyView| a.id);
    let r6 = s.policies.fold_left(r5, f6);
    let f7 = |r: RestoreView, record: PersistedToolGrantView| restore_tool_grant(r, record);
    lemma_records_make_entities(w, r6, s.tool_grants, f7, |a: PersistedToolGrantView| a.id);
    let r7 = s.tool_grants.fold_left(r6, f7);
    let f8 = |r: RestoreView, record: PersistedStoreGrantView| restore_store_grant(r, record);
    lemma_records_make_entities(w, r7, s.store_grants, f8, |a: PersistedStoreGrantView| a.id);
    let r8 = s.store_grants.fold_left(r7, f8);
    assert(restored(w, s) == r8);
    if record_ids(s).contains(id) {
        let i = choose|i: int| 0 <= i < record_ids(s).len() && record_ids(s)[i] == id;
        if id_index(w).contains_key(id) {
            law_known_ids_are_refused(w, s, i);
        }
        assert(r8.mapped.contains_key(id));
    }
}

/// A snapshot whose records stand in the order of their ids is its own ordered form.
pub proof fn law_ordered_snapshots_stay(s: DomainSnapshotView)
    requires
        is_ordered(s),
    ensures
        in_order(s) == s,
{
    lemma_ordered_stay(s.discovery_sources, |r: PersistedDiscoverySourceView| r.id);
    lemma_ordered_stay(s.models, |r: PersistedModelView| r.id);
    lemma_ordered_stay(s.tools, |r: PersistedToolView| r.id);
    lemma_ordered_stay(s.stores, |r: PersistedStoreView| r.id);
    lemma_ordered_stay(s.agents, |r: PersistedAgentView| r.id);
    lemma_ordered_stay(s.policies, |r: PersistedPolicyView| r.id);
    lemma_ordered_stay(s.tool_grants, |r: PersistedToolGrantView| r.id);
    lemma_ordered_stay(s.store_grants, |r: PersistedStoreGrantView| r.id);
}

/// Whether a row has the id of its record as the key.
spec fn keyed_by_id<V>(row: Option<(KeyView, V)>, id: spec_fn(V) -> Seq<char>) -> bool {
    match row {
        Some((key, record)) => key == id_key(id(record)),
        None => true,
    }
}

proof fn lemma_sorted_by_id<V>(
    ids: Seq<Entity>,
    row: spec_fn(Entity) -> Option<(KeyView, V)>,
    id: spec_fn(V) -> Seq<char>,
)
    requires
        forall|e: Entity| keyed_by_id(#[trigger] row(e), id),
    ensures
        in_id_order(sorted_records(ids, row), id),
{
    let rows = picked(ids, row);
    lemma_sort_rows(rows);
    let sorted = sort_rows(rows);
    lemma_picked_keys(ids, row, id);
    rows.to_multiset_ensures();
    sorted.to_multiset_ensures();
    let records = sorted_records(ids, row);
    assert forall|i: int| 0 <= i < sorted.len() implies (#[trigger] sorted[i]).0 == id_key(
        id(sorted[i].1),
    ) by {
        assert(sorted.contains(sorted[i]));
        assert(sorted.to_multiset().count(sorted[i]) > 0);
        assert(rows.contains(sorted[i]));
        let m = choose|m: int| 0 <= m < rows.len() && rows[m] == sorted[i];
        assert(rows[m].0 == id_key(id(rows[m].1)));
    }
    assert forall|i: int, j: int| 0 <= i <= j < records.len() implies key_le(
        id_key(id(#[trigger] records[i])),
        id_key(id(#[trigger] records[j])),
    ) by {
        assert(key_le(sorted[i].0, sorted[j].0));
        assert(records[i] == sorted[i].1);
        assert(records[j] == sorted[j].1);
    }
}

proof fn lemma_picked_keys<V>(
    ids: Seq<Entity>,
    row: spec_fn(Entity) -> Option<(KeyView, V)>,
    id: spec_fn(V) -> Seq<char>,
)
    requires
        forall|e: Entity| keyed_by_id(#[trigger] row(e), id),
    ensures
        forall|i: int|
            0 <= i < picked(ids, row).len() ==> (#[trigger] picked(ids, row)[i]).0 == id_key(
                id(picked(ids, row)[i].1),
            ),
    decreases ids.len(),
{
    if ids.len() > 0 {
        lemma_picked_keys(ids.drop_last(), row, id);
        assert(keyed_by_id(row(ids.last()), id));
        let rest = picked(ids.drop_last(), row);
        let all = picked(ids, row);
        assert forall|i: int| 0 <= i < all.len() implies (#[trigger] all[i]).0 == id_key(
            id(all[i].1),
        ) by {
            if i < rest.len() {
                assert(all[i] == rest[i]);
            }
        }
    }
}

/// The records of a snapshot stand in the order of their ids.
pub proof fn law_snapshots_are_ordered(w: WorldView)
    ensures
        is_ordered(domain_records(w)),
{
    let ids = entities_of(w.stable_ids.dom());
    lemma_sorted_by_id(ids, |e: Entity| source_row(w, e), |r: PersistedDiscoverySourceView| r.id);
    lemma_sorted_by_id(ids, |e: Entity| model_row(w, e), |r: PersistedModelView| r.id);
    lemma_sorted_by_id(ids, |e: Entity| tool_row(w, e), |r: PersistedToolView| r.id);
    lemma_sorted_by_id(ids, |e: Entity| store_row(w, e), |r: PersistedStoreView| r.id);
    lemma_sorted_by_id(ids, |e: Entity| agent_row(w, e), |r: PersistedAgentView| r.id);
    lemma_sorted_by_id(ids, |e: Entity| policy_row(w, e), |r: PersistedPolicyView| r.id);
    lemma_sorted_by_id(ids, |e: Entity| tool_grant_row(w, e), |r: PersistedToolGrantView| r.id);
    lemma_sorted_by_id(ids, |e: Entity| store_grant_row(w, e), |r: PersistedStoreGrantView| r.id);
}

proof fn lemma_picked_from<A, B>(items: Seq<A>, pick: spec_fn(A) -> Option<B>, i: int)
    requires
        0 <= i < picked(items, pick).len(),
    ensures
        exists|j: int|
            0 <= j < items.len() && #[trigger] pick(items[j]) == Some(picked(items, pick)[i]),
    decreases items.len(),
{
    if items.len() > 0 {
        let front = items.drop_last();
        let rest = picked(front, pick);
        if i < rest.len() {
            lemma_picked_from(front, pick, i);
            let j = choose|j: int| 0 <= j < front.len() && #[trigger] pick(front[j]) == Some(rest[i]);
            assert(pick(items[j]) == Some(picked(items, pick)[i]));
        } else {
            assert(pick(items[items.len() - 1]) == Some(picked(items, pick)[i]));
        }
    }
}

/// In a snapshot that was taken, a tool has a discovery key exactly where it has a discovery
/// source.
pub proof fn law_discovery_keys_come_with_sources(w: WorldView, i: int)
    requires
        first_stale(w) is None,
        0 <= i < domain_records(w).tools.len(),
    ensures
        domain_records(w).tools[i].discovery_key is Some
            <==> domain_records(w).tools[i].source_id is Some,
{
    let ids = entities_of(w.stable_ids.dom());
    let row = |e: Entity| tool_row(w, e);
    let rows = picked(ids, row);
    lemma_sort_rows(rows);
    let sorted = sort_rows(rows);
    rows.to_multiset_ensures();
    sorted.to_multiset_ensures();
    assert(domain_records(w).tools == sorted_records(ids, row));
    assert(domain_records(w).tools[i] == sorted[i].1);
    assert(sorted.contains(sorted[i]));
    assert(sorted.to_multiset().count(sorted[i]) > 0);
    assert(rows.contains(sorted[i]));
    let m = choose|m: int| 0 <= m < rows.len() && rows[m] == sorted[i];
    lemma_picked_from(ids, row, m);
    let j = choose|j: int| 0 <= j < ids.len() && #[trigger] row(ids[j]) == Some(rows[m]);
    let stale = |e: Entity| stale_tool(w, e);
    assert(first_picked(ids, stale, 0) is None);
    lemma_no_pick(ids, stale, 0, j);
    assert(stale(ids[j]) is None);
    assert(row(ids[j]) == tool_row(w, ids[j]));
}

/// A snapshot of one world that another world without identities takes reads back there as it was
/// taken.
pub proof fn law_snapshot_round_trip(v: WorldView, w: WorldView)
    requires
        is_bare(w),
        restore_fault(w, domain_records(v)) is None,
        w.next + record_count(domain_records(v)) <= u64::MAX,
    ensures
        first_stale(restored(w, domain_records(v)).world) is None,
        domain_records(restored(w, domain_records(v)).world) == domain_records(v),
{
    law_snapshots_are_ordered(v);
    law_ordered_snapshots_stay(domain_records(v));
    law_restored_snapshots_read_back(w, domain_records(v));
}

/// A snapshot that cannot be restored leaves nothing behind: whether it can is decided by the
/// world before and the snapshot alone, and an id that the world knows already is refused.
pub proof fn law_known_ids_are_refused(w: WorldView, s: DomainSnapshotView, i: int)
    requires
        0 <= i < record_ids(s).len(),
        id_index(w).contains_key(record_ids(s)[i]),
    ensures
        restore_fault(w, s) is Some,
{
    lemma_taken_first(id_index(w), record_ids(s), 0, i);
}

proof fn lemma_taken_first(
    index: Map<Seq<char>, Entity>,
    ids: Seq<Seq<char>>,
    from: int,
    i: int,
)
    requires
        0 <= from <= i < ids.len(),
        id_taken(index, ids, i),
    ensures
        first_taken(index, ids, from) is Some,
    decreases i - from,
{
    if from < i && !id_taken(index, ids, from) {
        lemma_taken_first(index, ids, from + 1, i);
    }
}

} // verus!
