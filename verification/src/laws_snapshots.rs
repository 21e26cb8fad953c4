//! Which snapshots can be restored.

use vstd::prelude::*;

use crate::column::{entities_of, lemma_entities, Entity};
use crate::fold::{first_picked, lemma_picked_members, picked};
use crate::persisted::{
    DomainSnapshotView, PersistedAgentView, PersistedDiscoverySourceView, PersistedModelView,
    PersistedPolicyView, PersistedStoreGrantView, PersistedStoreView, PersistedToolGrantView,
    PersistedToolView,
};
use crate::restore::{
    agent_fault, agent_tenants, first_taken, id_index, id_taken, kind_tenants, model_tenants,
    policy_fault, provenance_fault, record_ids, restore_fault, source_tenants, store_grant_fault,
    store_tenants, tool_grant_fault, tool_tenants, with_tenants,
};
use crate::run::PersistenceErrorView;
use crate::snapshot::{
    agent_row, domain_records, first_stale, model_row, policy_row, sorted_records, source_row,
    stale_agent, stale_policy, stale_store_grant, stale_tool, stale_tool_grant, store_grant_row,
    store_row, tool_grant_row, tool_row,
};
use crate::sorting::{lemma_sort_rows, sort_rows, KeyView};
use crate::world::WorldView;

verus! {

/// The ids of all records of a snapshot.
pub open spec fn all_ids(s: DomainSnapshotView) -> Seq<Seq<char>> {
    let sources = Seq::new(s.discovery_sources.len(), |i: int| s.discovery_sources[i].id);
    let models = Seq::new(s.models.len(), |i: int| s.models[i].id);
    let agents = Seq::new(s.agents.len(), |i: int| s.agents[i].id);
    let policies = Seq::new(s.policies.len(), |i: int| s.policies[i].id);
    let tools = Seq::new(s.tools.len(), |i: int| s.tools[i].id);
    let tool_grants = Seq::new(s.tool_grants.len(), |i: int| s.tool_grants[i].id);
    let stores = Seq::new(s.stores.len(), |i: int| s.stores[i].id);
    let store_grants = Seq::new(s.store_grants.len(), |i: int| s.store_grants[i].id);
    sources + models + agents + policies + tools + tool_grants + stores + store_grants
}

/// Whether a snapshot holds a model with an id, of a tenant.
pub open spec fn holds_model(s: DomainSnapshotView, id: Seq<char>, tenant: Seq<char>) -> bool {
    exists|j: int|
        0 <= j < s.models.len() && (#[trigger] s.models[j]).id == id && s.models[j].tenant
            == tenant
}

/// Whether a snapshot holds an agent with an id, of a tenant.
pub open spec fn holds_agent(s: DomainSnapshotView, id: Seq<char>, tenant: Seq<char>) -> bool {
    exists|j: int|
        0 <= j < s.agents.len() && (#[trigger] s.agents[j]).id == id && s.agents[j].tenant
            == tenant
}

/// Whether a snapshot holds a source with an id, of a tenant.
pub open spec fn holds_source(s: DomainSnapshotView, id: Seq<char>, tenant: Seq<char>) -> bool {
    exists|j: int|
        0 <= j < s.discovery_sources.len() && (#[trigger] s.discovery_sources[j]).id == id
            && s.discovery_sources[j].tenant == tenant
}

/// Whether a snapshot holds a tool with an id, of a tenant.
pub open spec fn holds_tool(s: DomainSnapshotView, id: Seq<char>, tenant: Seq<char>) -> bool {
    exists|j: int|
        0 <= j < s.tools.len() && (#[trigger] s.tools[j]).id == id && s.tools[j].tenant == tenant
}

/// Whether a snapshot holds a store with an id, of a tenant.
pub open spec fn holds_store(s: DomainSnapshotView, id: Seq<char>, tenant: Seq<char>) -> bool {
    exists|j: int|
        0 <= j < s.stores.len() && (#[trigger] s.stores[j]).id == id && s.stores[j].tenant
            == tenant
}

/// Whether a tool either comes from no source, or from one of its tenant and with a key.
pub open spec fn comes_from_its_source(s: DomainSnapshotView, tool: PersistedToolView) -> bool {
    match (tool.source_id, tool.discovery_key) {
        (None, None) => true,
        (Some(source), Some(_)) => holds_source(s, source, tool.tenant),
        _ => false,
    }
}

/// Whether every reference of a snapshot leads to a record of the right kind and of one tenant.
pub open spec fn is_coherent(s: DomainSnapshotView) -> bool {
    &&& forall|i: int|
        0 <= i < s.agents.len() ==> holds_model(
            s,
            (#[trigger] s.agents[i]).model_id,
            s.agents[i].tenant,
        )
    &&& forall|i: int|
        0 <= i < s.policies.len() ==> holds_agent(
            s,
            (#[trigger] s.policies[i]).agent_id,
            s.policies[i].tenant,
        )
    &&& forall|i: int| 0 <= i < s.tools.len() ==> comes_from_its_source(s, #[trigger] s.tools[i])
    &&& forall|i: int|
        0 <= i < s.tool_grants.len() ==> holds_agent(
            s,
            (#[trigger] s.tool_grants[i]).agent_id,
            s.tool_grants[i].tenant,
        ) && holds_tool(s, s.tool_grants[i].tool_id, s.tool_grants[i].tenant)
    &&& forall|i: int|
        0 <= i < s.store_grants.len() ==> holds_agent(
            s,
            (#[trigger] s.store_grants[i]).agent_id,
            s.store_grants[i].tenant,
        ) && holds_store(s, s.store_grants[i].store_id, s.store_grants[i].tenant)
}

proof fn lemma_first_none<A, B>(items: Seq<A>, pick: spec_fn(A) -> Option<B>, from: int)
    requires
        0 <= from,
    ensures
        first_picked(items, pick, from) is None <==> forall|i: int|
            from <= i < items.len() ==> pick(#[trigger] items[i]) is None,
    decreases items.len() - from,
{
    if from < items.len() {
        lemma_first_none(items, pick, from + 1);
    }
}

/// Whether the ids of records differ.
spec fn firsts_differ(records: Seq<(Seq<char>, Seq<char>)>) -> bool {
    forall|i: int, j: int|
        0 <= i < j < records.len() ==> (#[trigger] records[i]).0 != (#[trigger] records[j]).0
}

proof fn lemma_tenants(records: Seq<(Seq<char>, Seq<char>)>, id: Seq<char>, tenant: Seq<char>)
    requires
        firsts_differ(records),
    ensures
        ({
            let m = with_tenants(Map::empty(), records);
            &&& m.contains_key(id) <==> exists|j: int|
                0 <= j < records.len() && (#[trigger] records[j]).0 == id
            &&& m.contains_key(id) && m[id] == tenant <==> exists|j: int|
                0 <= j < records.len() && (#[trigger] records[j]).0 == id && records[j].1 == tenant
        }),
    decreases records.len(),
{
    reveal_with_fuel(Seq::fold_left, 2);
    if records.len() > 0 {
        let front = records.drop_last();
        let last = records.last();
        let n = records.len() - 1;
        assert(records[n] == last);
        assert forall|i: int, j: int| 0 <= i < j < front.len() implies (#[trigger] front[i]).0 != (
        #[trigger] front[j]).0 by {
            assert(records[i].0 != records[j].0);
        }
        lemma_tenants(front, id, tenant);
        let before = with_tenants(Map::empty(), front);
        let m = with_tenants(Map::empty(), records);
        assert(m == before.insert(last.0, last.1));
        assert forall|j: int| 0 <= j < front.len() implies #[trigger] front[j] == records[j] by {}
        if before.contains_key(id) {
            let j = choose|j: int| 0 <= j < front.len() && (#[trigger] front[j]).0 == id;
            assert(records[j].0 == id);
            assert(records[j].0 != records[n].0);
            if before[id] == tenant {
                let k = choose|k: int|
                    0 <= k < front.len() && (#[trigger] front[k]).0 == id && front[k].1 == tenant;
                assert(records[k].0 == id && records[k].1 == tenant);
            }
        }
        if exists|j: int|
            0 <= j < records.len() && (#[trigger] records[j]).0 == id && records[j].1 == tenant {
            let j = choose|j: int|
                0 <= j < records.len() && (#[trigger] records[j]).0 == id && records[j].1 == tenant;
            if j < n {
                assert(front[j].0 == id && front[j].1 == tenant);
                assert(records[j].0 != records[n].0);
            }
        }
        if exists|j: int| 0 <= j < records.len() && (#[trigger] records[j]).0 == id {
            let j = choose|j: int| 0 <= j < records.len() && (#[trigger] records[j]).0 == id;
            if j < n {
                assert(front[j].0 == id);
            }
        }
    }
}

proof fn lemma_no_entities(w: WorldView, kind: spec_fn(Entity) -> bool)
    requires
        w.stable_ids == Map::<Entity, Seq<char>>::empty(),
    ensures
        kind_tenants(w, kind) == Map::<Seq<char>, Seq<char>>::empty(),
        id_index(w) == Map::<Seq<char>, Entity>::empty(),
{
    lemma_entities(w.stable_ids.dom());
    let ids = entities_of(w.stable_ids.dom());
    assert(ids.len() == 0) by {
        if ids.len() > 0 {
            assert(ids.to_set().contains(ids[0]));
        }
    }
    reveal_with_fuel(Seq::fold_left, 1);
}

proof fn lemma_ids(s: DomainSnapshotView)
    requires
        all_ids(s).no_duplicates(),
    ensures
        firsts_differ(Seq::new(s.models.len(), |i: int| (s.models[i].id, s.models[i].tenant))),
        firsts_differ(Seq::new(s.agents.len(), |i: int| (s.agents[i].id, s.agents[i].tenant))),
        firsts_differ(
            Seq::new(
                s.discovery_sources.len(),
                |i: int| (s.discovery_sources[i].id, s.discovery_sources[i].tenant),
            ),
        ),
        firsts_differ(Seq::new(s.tools.len(), |i: int| (s.tools[i].id, s.tools[i].tenant))),
        firsts_differ(Seq::new(s.stores.len(), |i: int| (s.stores[i].id, s.stores[i].tenant))),
{
    let ids = all_ids(s);
    let a = s.discovery_sources.len();
    let b = a + s.models.len();
    let c = b + s.agents.len();
    let d = c + s.policies.len();
    let e = d + s.tools.len();
    let f = e + s.tool_grants.len();
    assert forall|i: int| 0 <= i < s.discovery_sources.len() implies ids[i] == (
    #[trigger] s.discovery_sources[i]).id by {}
    assert forall|i: int| 0 <= i < s.models.len() implies ids[a + i] == (
    #[trigger] s.models[i]).id by {}
    assert forall|i: int| 0 <= i < s.agents.len() implies ids[b + i] == (
    #[trigger] s.agents[i]).id by {}
    assert forall|i: int| 0 <= i < s.tools.len() implies ids[d + i] == (#[trigger] s.tools[i]).id by {}
    assert forall|i: int| 0 <= i < s.stores.len() implies ids[f + i] == (
    #[trigger] s.stores[i]).id by {}
    let models = Seq::new(s.models.len(), |i: int| (s.models[i].id, s.models[i].tenant));
    assert forall|i: int, j: int| 0 <= i < j < models.len() implies (#[trigger] models[i]).0 != (
    #[trigger] models[j]).0 by {
        assert(ids[a + i] == s.models[i].id && ids[a + j] == s.models[j].id);
    }
    let agents = Seq::new(s.agents.len(), |i: int| (s.agents[i].id, s.agents[i].tenant));
    assert forall|i: int, j: int| 0 <= i < j < agents.len() implies (#[trigger] agents[i]).0 != (
    #[trigger] agents[j]).0 by {
        assert(ids[b + i] == s.agents[i].id && ids[b + j] == s.agents[j].id);
    }
    let sources = Seq::new(
        s.discovery_sources.len(),
        |i: int| (s.discovery_sources[i].id, s.discovery_sources[i].tenant),
    );
    assert forall|i: int, j: int| 0 <= i < j < sources.len() implies (#[trigger] sources[i]).0 != (
    #[trigger] sources[j]).0 by {
        assert(ids[i] == s.discovery_sources[i].id && ids[j] == s.discovery_sources[j].id);
    }
    let tools = Seq::new(s.tools.len(), |i: int| (s.tools[i].id, s.tools[i].tenant));
    assert forall|i: int, j: int| 0 <= i < j < tools.len() implies (#[trigger] tools[i]).0 != (
    #[trigger] tools[j]).0 by {
        assert(ids[d + i] == s.tools[i].id && ids[d + j] == s.tools[j].id);
    }
    let stores = Seq::new(s.stores.len(), |i: int| (s.stores[i].id, s.stores[i].tenant));
    assert forall|i: int, j: int| 0 <= i < j < stores.len() implies (#[trigger] stores[i]).0 != (
    #[trigger] stores[j]).0 by {
        assert(ids[f + i] == s.stores[i].id && ids[f + j] == s.stores[j].id);
    }
}

/// What the tenants of the records of each kind are, in a world without identities.
proof fn lemma_known(w: WorldView, s: DomainSnapshotView, id: Seq<char>, tenant: Seq<char>)
    requires
        w.stable_ids == Map::<Entity, Seq<char>>::empty(),
        all_ids(s).no_duplicates(),
    ensures
        model_tenants(w, s).contains_key(id) && model_tenants(w, s)[id] == tenant <==> holds_model(
            s,
            id,
            tenant,
        ),
        agent_tenants(w, s).contains_key(id) && agent_tenants(w, s)[id] == tenant <==> holds_agent(
            s,
            id,
            tenant,
        ),
        source_tenants(w, s).contains_key(id) && source_tenants(w, s)[id] == tenant
            <==> holds_source(s, id, tenant),
        tool_tenants(w, s).contains_key(id) && tool_tenants(w, s)[id] == tenant <==> holds_tool(
            s,
            id,
            tenant,
        ),
        store_tenants(w, s).contains_key(id) && store_tenants(w, s)[id] == tenant <==> holds_store(
            s,
            id,
            tenant,
        ),
{
    lemma_ids(s);
    lemma_no_entities(w, |e: Entity| w.domain.models.contains_key(e));
    lemma_no_entities(w, |e: Entity| w.domain.agents.contains_key(e));
    lemma_no_entities(w, |e: Entity| w.domain.sources.contains_key(e));
    lemma_no_entities(w, |e: Entity| w.domain.tools.contains_key(e));
    lemma_no_entities(w, |e: Entity| w.domain.stores.contains_key(e));
    let models = Seq::new(s.models.len(), |i: int| (s.models[i].id, s.models[i].tenant));
    let agents = Seq::new(s.agents.len(), |i: int| (s.agents[i].id, s.agents[i].tenant));
    let sources = Seq::new(
        s.discovery_sources.len(),
        |i: int| (s.discovery_sources[i].id, s.discovery_sources[i].tenant),
    );
    let tools = Seq::new(s.tools.len(), |i: int| (s.tools[i].id, s.tools[i].tenant));
    let stores = Seq::new(s.stores.len(), |i: int| (s.stores[i].id, s.stores[i].tenant));
    lemma_tenants(models, id, tenant);
    lemma_tenants(agents, id, tenant);
    lemma_tenants(sources, id, tenant);
    lemma_tenants(tools, id, tenant);
    lemma_tenants(stores, id, tenant);
    assert forall|j: int| 0 <= j < s.models.len() implies (#[trigger] s.models[j]).id
        == models[j].0 && s.models[j].tenant == models[j].1 by {}
    assert forall|j: int| 0 <= j < s.agents.len() implies (#[trigger] s.agents[j]).id
        == agents[j].0 && s.agents[j].tenant == agents[j].1 by {}
    assert forall|j: int| 0 <= j < s.discovery_sources.len() implies (
    #[trigger] s.discovery_sources[j]).id == sources[j].0 && s.discovery_sources[j].tenant
        == sources[j].1 by {}
    assert forall|j: int| 0 <= j < s.tools.len() implies (#[trigger] s.tools[j]).id == tools[j].0
        && s.tools[j].tenant == tools[j].1 by {}
    assert forall|j: int| 0 <= j < s.stores.len() implies (#[trigger] s.stores[j]).id
        == stores[j].0 && s.stores[j].tenant == stores[j].1 by {}
}

proof fn lemma_taken(index: Map<Seq<char>, Entity>, ids: Seq<Seq<char>>, from: int)
    requires
        0 <= from,
        index == Map::<Seq<char>, Entity>::empty(),
    ensures
        ids.no_duplicates() ==> first_taken(index, ids, from) is None,
        match first_taken(index, ids, from) {
            Some(id) => ids.contains(id),
            None => forall|i: int| from <= i < ids.len() ==> !id_taken(index, ids, i),
        },
    decreases ids.len() - from,
{
    if from < ids.len() {
        assert(ids.contains(ids[from]));
        lemma_taken(index, ids, from + 1);
    }
}

/// A snapshot in which an id occurs twice cannot be restored, and it says that an id of it
/// conflicts.
pub proof fn law_repeated_ids_cannot_be_restored(w: WorldView, s: DomainSnapshotView)
    requires
        w.stable_ids == Map::<Entity, Seq<char>>::empty(),
        !all_ids(s).no_duplicates(),
    ensures
        match restore_fault(w, s) {
            Some(PersistenceErrorView::ConflictingStableId(id)) => all_ids(s).contains(id),
            _ => false,
        },
{
    lemma_no_entities(w, |e: Entity| true);
    let ids = all_ids(s);
    assert(record_ids(s) =~= ids);
    lemma_taken(id_index(w), ids, 0);
    let (i, j) = choose|i: int, j: int|
        0 <= i < ids.len() && 0 <= j < ids.len() && i != j && ids[i] == ids[j];
    if i < j {
        assert(ids[i] == ids[j]);
        assert(id_taken(id_index(w), ids, j));
    } else {
        assert(id_taken(id_index(w), ids, i));
    }
}

/// A snapshot with different ids can be restored into a world without identities exactly where
/// every reference leads to a record of the right kind, of the same tenant.
pub proof fn law_coherent_snapshots_can_be_restored(w: WorldView, s: DomainSnapshotView)
    requires
        w.stable_ids == Map::<Entity, Seq<char>>::empty(),
        all_ids(s).no_duplicates(),
    ensures
        restore_fault(w, s) is None <==> is_coherent(s),
{
    lemma_no_entities(w, |e: Entity| true);
    assert(record_ids(s) =~= all_ids(s));
    lemma_taken(id_index(w), record_ids(s), 0);
    let agent = |r: PersistedAgentView| agent_fault(w, s, r);
    let policy = |r: PersistedPolicyView| policy_fault(w, s, r);
    let tool = |r: PersistedToolView| provenance_fault(source_tenants(w, s), r);
    let tool_grant = |r: PersistedToolGrantView| tool_grant_fault(w, s, r);
    let store_grant = |r: PersistedStoreGrantView| store_grant_fault(w, s, r);
    lemma_first_none(s.agents, agent, 0);
    lemma_first_none(s.policies, policy, 0);
    lemma_first_none(s.tools, tool, 0);
    lemma_first_none(s.tool_grants, tool_grant, 0);
    lemma_first_none(s.store_grants, store_grant, 0);
    assert forall|i: int| 0 <= i < s.agents.len() implies (agent(#[trigger] s.agents[i]) is None
        <==> holds_model(s, s.agents[i].model_id, s.agents[i].tenant)) by {
        lemma_known(w, s, s.agents[i].model_id, s.agents[i].tenant);
    }
    assert forall|i: int| 0 <= i < s.policies.len() implies (policy(#[trigger] s.policies[i])
        is None <==> holds_agent(s, s.policies[i].agent_id, s.policies[i].tenant)) by {
        lemma_known(w, s, s.policies[i].agent_id, s.policies[i].tenant);
    }
    assert forall|i: int| 0 <= i < s.tools.len() implies (tool(#[trigger] s.tools[i]) is None
        <==> comes_from_its_source(s, s.tools[i])) by {
        if s.tools[i].source_id is Some {
            lemma_known(w, s, s.tools[i].source_id->0, s.tools[i].tenant);
        }
    }
    assert forall|i: int| 0 <= i < s.tool_grants.len() implies (tool_grant(
        #[trigger] s.tool_grants[i],
    ) is None <==> holds_agent(s, s.tool_grants[i].agent_id, s.tool_grants[i].tenant)
        && holds_tool(s, s.tool_grants[i].tool_id, s.tool_grants[i].tenant)) by {
        lemma_known(w, s, s.tool_grants[i].agent_id, s.tool_grants[i].tenant);
        lemma_known(w, s, s.tool_grants[i].tool_id, s.tool_grants[i].tenant);
    }
    assert forall|i: int| 0 <= i < s.store_grants.len() implies (store_grant(
        #[trigger] s.store_grants[i],
    ) is None <==> holds_agent(s, s.store_grants[i].agent_id, s.store_grants[i].tenant)
        && holds_store(s, s.store_grants[i].store_id, s.store_grants[i].tenant)) by {
        lemma_known(w, s, s.store_grants[i].agent_id, s.store_grants[i].tenant);
        lemma_known(w, s, s.store_grants[i].store_id, s.store_grants[i].tenant);
    }
}

proof fn lemma_first_at<A, B>(items: Seq<A>, pick: spec_fn(A) -> Option<B>, from: int, k: int)
    requires
        0 <= from <= k < items.len(),
        pick(items[k]) is Some,
        forall|j: int| 0 <= j < k ==> pick(#[trigger] items[j]) is None,
    ensures
        first_picked(items, pick, from) == pick(items[k]),
    decreases k - from,
{
    if from < k {
        assert(pick(items[from]) is None);
        lemma_first_at(items, pick, from + 1, k);
    }
}

/// The error for a reference to an id that is not there, or is there in another tenant.
pub open spec fn broken_reference(is_there: bool, id: Seq<char>) -> PersistenceErrorView {
    if is_there {
        PersistenceErrorView::TenantMismatch(id)
    } else {
        PersistenceErrorView::MissingReference(id)
    }
}

/// Whether a snapshot holds a model with an id, of whatever tenant.
pub open spec fn knows_model(s: DomainSnapshotView, id: Seq<char>) -> bool {
    exists|j: int| 0 <= j < s.models.len() && (#[trigger] s.models[j]).id == id
}

/// Whether a snapshot holds an agent with an id, of whatever tenant.
pub open spec fn knows_agent(s: DomainSnapshotView, id: Seq<char>) -> bool {
    exists|j: int| 0 <= j < s.agents.len() && (#[trigger] s.agents[j]).id == id
}

/// Whether a snapshot holds a tool with an id, of whatever tenant.
pub open spec fn knows_tool(s: DomainSnapshotView, id: Seq<char>) -> bool {
    exists|j: int| 0 <= j < s.tools.len() && (#[trigger] s.tools[j]).id == id
}

/// Whether a snapshot holds a store with an id, of whatever tenant.
pub open spec fn knows_store(s: DomainSnapshotView, id: Seq<char>) -> bool {
    exists|j: int| 0 <= j < s.stores.len() && (#[trigger] s.stores[j]).id == id
}

proof fn lemma_known_ids(w: WorldView, s: DomainSnapshotView, id: Seq<char>)
    requires
        w.stable_ids == Map::<Entity, Seq<char>>::empty(),
        all_ids(s).no_duplicates(),
    ensures
        model_tenants(w, s).contains_key(id) <==> knows_model(s, id),
        agent_tenants(w, s).contains_key(id) <==> knows_agent(s, id),
        tool_tenants(w, s).contains_key(id) <==> knows_tool(s, id),
        store_tenants(w, s).contains_key(id) <==> knows_store(s, id),
{
    lemma_known(w, s, id, model_tenants(w, s)[id]);
    lemma_known(w, s, id, agent_tenants(w, s)[id]);
    lemma_known(w, s, id, tool_tenants(w, s)[id]);
    lemma_known(w, s, id, store_tenants(w, s)[id]);
    if knows_model(s, id) {
        let j = choose|j: int| 0 <= j < s.models.len() && (#[trigger] s.models[j]).id == id;
        lemma_known(w, s, id, s.models[j].tenant);
    }
    if knows_agent(s, id) {
        let j = choose|j: int| 0 <= j < s.agents.len() && (#[trigger] s.agents[j]).id == id;
        lemma_known(w, s, id, s.agents[j].tenant);
    }
    if knows_tool(s, id) {
        let j = choose|j: int| 0 <= j < s.tools.len() && (#[trigger] s.tools[j]).id == id;
        lemma_known(w, s, id, s.tools[j].tenant);
    }
    if knows_store(s, id) {
        let j = choose|j: int| 0 <= j < s.stores.len() && (#[trigger] s.stores[j]).id == id;
        lemma_known(w, s, id, s.stores[j].tenant);
    }
}

/// The first agent whose model is not there, or belongs to another tenant, is what a snapshot is
/// refused for, with the id of the model.
pub proof fn law_missing_models_are_named(w: WorldView, s: DomainSnapshotView, k: int)
    requires
        w.stable_ids == Map::<Entity, Seq<char>>::empty(),
        all_ids(s).no_duplicates(),
        0 <= k < s.agents.len(),
        !holds_model(s, s.agents[k].model_id, s.agents[k].tenant),
        forall|i: int|
            0 <= i < k ==> holds_model(s, (#[trigger] s.agents[i]).model_id, s.agents[i].tenant),
    ensures
        restore_fault(w, s) == Some(
            broken_reference(knows_model(s, s.agents[k].model_id), s.agents[k].model_id),
        ),
{
    lemma_no_entities(w, |e: Entity| true);
    assert(record_ids(s) =~= all_ids(s));
    lemma_taken(id_index(w), record_ids(s), 0);
    let agent = |r: PersistedAgentView| agent_fault(w, s, r);
    assert forall|i: int| 0 <= i < k implies agent(#[trigger] s.agents[i]) is None by {
        lemma_known(w, s, s.agents[i].model_id, s.agents[i].tenant);
    }
    lemma_known(w, s, s.agents[k].model_id, s.agents[k].tenant);
    lemma_known_ids(w, s, s.agents[k].model_id);
    lemma_first_at(s.agents, agent, 0, k);
}

/// The first policy whose agent is not there, or belongs to another tenant, is what a snapshot with
/// whole agents is refused for, with the id of the agent.
pub proof fn law_missing_agents_are_named(w: WorldView, s: DomainSnapshotView, k: int)
    requires
        w.stable_ids == Map::<Entity, Seq<char>>::empty(),
        all_ids(s).no_duplicates(),
        forall|i: int|
            0 <= i < s.agents.len() ==> holds_model(
                s,
                (#[trigger] s.agents[i]).model_id,
                s.agents[i].tenant,
            ),
        0 <= k < s.policies.len(),
        !holds_agent(s, s.policies[k].agent_id, s.policies[k].tenant),
        forall|i: int|
            0 <= i < k ==> holds_agent(
                s,
                (#[trigger] s.policies[i]).agent_id,
                s.policies[i].tenant,
            ),
    ensures
        restore_fault(w, s) == Some(
            broken_reference(knows_agent(s, s.policies[k].agent_id), s.policies[k].agent_id),
        ),
{
    lemma_no_entities(w, |e: Entity| true);
    assert(record_ids(s) =~= all_ids(s));
    lemma_taken(id_index(w), record_ids(s), 0);
    let agent = |r: PersistedAgentView| agent_fault(w, s, r);
    let policy = |r: PersistedPolicyView| policy_fault(w, s, r);
    assert forall|i: int| 0 <= i < s.agents.len() implies agent(#[trigger] s.agents[i]) is None by {
        lemma_known(w, s, s.agents[i].model_id, s.agents[i].tenant);
    }
    lemma_first_none(s.agents, agent, 0);
    assert forall|i: int| 0 <= i < k implies policy(#[trigger] s.policies[i]) is None by {
        lemma_known(w, s, s.policies[i].agent_id, s.policies[i].tenant);
    }
    lemma_known(w, s, s.policies[k].agent_id, s.policies[k].tenant);
    lemma_known_ids(w, s, s.policies[k].agent_id);
    lemma_first_at(s.policies, policy, 0, k);
}

/// A grant of a tool or a store is refused for its agent where that is not there, then for what it
/// grants where that is not there, and otherwise for what it grants where the tenants differ.
pub proof fn law_broken_grants_are_named(
    w: WorldView,
    s: DomainSnapshotView,
    tool: PersistedToolGrantView,
    store: PersistedStoreGrantView,
)
    requires
        w.stable_ids == Map::<Entity, Seq<char>>::empty(),
        all_ids(s).no_duplicates(),
    ensures
        !knows_agent(s, tool.agent_id) ==> tool_grant_fault(w, s, tool) == Some(
            PersistenceErrorView::MissingReference(tool.agent_id),
        ),
        knows_agent(s, tool.agent_id) && !knows_tool(s, tool.tool_id) ==> tool_grant_fault(
            w,
            s,
            tool,
        ) == Some(PersistenceErrorView::MissingReference(tool.tool_id)),
        knows_agent(s, tool.agent_id) && knows_tool(s, tool.tool_id) && !(holds_agent(
            s,
            tool.agent_id,
            tool.tenant,
        ) && holds_tool(s, tool.tool_id, tool.tenant)) ==> tool_grant_fault(w, s, tool) == Some(
            PersistenceErrorView::TenantMismatch(tool.tool_id),
        ),
        !knows_agent(s, store.agent_id) ==> store_grant_fault(w, s, store) == Some(
            PersistenceErrorView::MissingReference(store.agent_id),
        ),
        knows_agent(s, store.agent_id) && !knows_store(s, store.store_id) ==> store_grant_fault(
            w,
            s,
            store,
        ) == Some(PersistenceErrorView::MissingReference(store.store_id)),
        knows_agent(s, store.agent_id) && knows_store(s, store.store_id) && !(holds_agent(
            s,
            store.agent_id,
            store.tenant,
        ) && holds_store(s, store.store_id, store.tenant)) ==> store_grant_fault(w, s, store)
            == Some(PersistenceErrorView::TenantMismatch(store.store_id)),
{
    lemma_known_ids(w, s, tool.agent_id);
    lemma_known_ids(w, s, tool.tool_id);
    lemma_known_ids(w, s, store.agent_id);
    lemma_known_ids(w, s, store.store_id);
    lemma_known(w, s, tool.agent_id, tool.tenant);
    lemma_known(w, s, tool.tool_id, tool.tenant);
    lemma_known(w, s, store.agent_id, store.tenant);
    lemma_known(w, s, store.store_id, store.tenant);
}

/// The value of a row.
spec fn value_of<V>(row: Option<(KeyView, V)>) -> V {
    match row {
        Some((_, value)) => value,
        None => arbitrary(),
    }
}

/// What is picked, once sorted, is what is given for some entity.
proof fn lemma_sorted_records<V>(
    ids: Seq<Entity>,
    row: spec_fn(Entity) -> Option<(KeyView, V)>,
    value: V,
)
    ensures
        sorted_records(ids, row).contains(value) <==> exists|i: int|
            0 <= i < ids.len() && (#[trigger] row(ids[i])) is Some && value_of(row(ids[i])) == value,
{
    let rows = picked(ids, row);
    let sorted = sort_rows(rows);
    let values = sorted_records(ids, row);
    lemma_sort_rows(rows);
    rows.to_multiset_ensures();
    sorted.to_multiset_ensures();
    if values.contains(value) {
        let k = choose|k: int| 0 <= k < values.len() && values[k] == value;
        assert(sorted.contains(sorted[k]));
        assert(sorted.to_multiset().count(sorted[k]) > 0);
        assert(rows.contains(sorted[k]));
        lemma_picked_members(ids, row, sorted[k]);
        let i = choose|i: int| 0 <= i < ids.len() && #[trigger] row(ids[i]) == Some(sorted[k]);
        assert(row(ids[i]) is Some && value_of(row(ids[i])) == value);
    }
    if exists|i: int|
        0 <= i < ids.len() && (#[trigger] row(ids[i])) is Some && value_of(row(ids[i])) == value {
        let i = choose|i: int|
            0 <= i < ids.len() && (#[trigger] row(ids[i])) is Some && value_of(row(ids[i])) == value;
        let found = row(ids[i])->0;
        assert(row(ids[i]) == Some(found));
        lemma_picked_members(ids, row, found);
        assert(rows.contains(found));
        assert(rows.to_multiset().count(found) > 0);
        assert(sorted.contains(found));
        let k = choose|k: int| 0 <= k < sorted.len() && sorted[k] == found;
        assert(values[k] == value);
    }
}

/// Whether an entity has an identity and a tenant.
pub open spec fn has_identity(w: WorldView, e: Entity) -> bool {
    w.stable_ids.contains_key(e) && w.tenants.contains_key(e)
}

/// Whether a record is that of a source.
pub open spec fn records_source(w: WorldView, e: Entity, r: PersistedDiscoverySourceView) -> bool {
    has_identity(w, e) && w.domain.sources.contains_key(e) && r.id == w.stable_ids[e] && r.tenant == w.tenants[e]
        && r.kind == w.domain.sources[e].kind
        && r.generation == w.domain.sources[e].generation
}

/// Whether a record is that of a model.
pub open spec fn records_model(w: WorldView, e: Entity, r: PersistedModelView) -> bool {
    has_identity(w, e) && w.domain.models.contains_key(e) && r.id == w.stable_ids[e] && r.tenant == w.tenants[e]
        && r.capability == w.domain.models[e]
}

/// Whether a record is that of an agent.
pub open spec fn records_agent(w: WorldView, e: Entity, r: PersistedAgentView) -> bool {
    has_identity(w, e) && w.domain.agents.contains_key(e) && w.domain.uses_model.contains_key(e) && r.id == w.stable_ids[e] && r.tenant == w.tenants[e]
        && r.agent == w.domain.agents[e] && r.model_id == w.stable_ids[w.domain.uses_model[e]]
        && (w.domain.output_requirements.contains_key(e) ==> r.output_requirement == Some(
            w.domain.output_requirements[e],
        )) && (!w.domain.output_requirements.contains_key(e) ==> r.output_requirement is None)
        && (w.domain.retrieval_requirements.contains_key(e) ==> r.retrieval_requirement == Some(
            w.domain.retrieval_requirements[e],
        )) && (!w.domain.retrieval_requirements.contains_key(e) ==> r.retrieval_requirement is None)
}

/// Whether a record is that of a policy.
pub open spec fn records_policy(w: WorldView, e: Entity, r: PersistedPolicyView) -> bool {
    has_identity(w, e) && w.domain.policies.contains_key(e) && w.domain.policy_for.contains_key(e) && r.id == w.stable_ids[e] && r.tenant == w.tenants[e]
        && r.policy == w.domain.policies[e] && r.agent_id == w.stable_ids[w.domain.policy_for[e]]
}

/// Whether a record is that of a tool.
pub open spec fn records_tool(w: WorldView, e: Entity, r: PersistedToolView) -> bool {
    has_identity(w, e) && w.domain.tools.contains_key(e) && r.id == w.stable_ids[e] && r.tenant == w.tenants[e]
        && r.capability == w.domain.tools[e] && (w.domain.discovered_from.contains_key(e) ==> r.source_id
        == Some(w.stable_ids[w.domain.discovered_from[e]])) && (!w.domain.discovered_from.contains_key(e)
        ==> r.source_id is None) && (w.domain.discovery_keys.contains_key(e) ==> r.discovery_key == Some(
        w.domain.discovery_keys[e].0,
    )) && (!w.domain.discovery_keys.contains_key(e) ==> r.discovery_key is None)
}

/// Whether a record is that of a tool grant.
pub open spec fn records_tool_grant(w: WorldView, e: Entity, r: PersistedToolGrantView) -> bool {
    has_identity(w, e) && w.domain.tool_grants.contains_key(e) && w.domain.grant_for_agent.contains_key(e)
        && w.domain.grant_for_tool.contains_key(e) && r.id == w.stable_ids[e] && r.tenant == w.tenants[e]
        && r.grant == w.domain.tool_grants[e] && r.agent_id == w.stable_ids[w.domain.grant_for_agent[e]]
        && r.tool_id == w.stable_ids[w.domain.grant_for_tool[e]]
}

/// Whether a record is that of a store.
pub open spec fn records_store(w: WorldView, e: Entity, r: PersistedStoreView) -> bool {
    has_identity(w, e) && w.domain.stores.contains_key(e) && r.id == w.stable_ids[e] && r.tenant == w.tenants[e]
        && r.capability == w.domain.stores[e]
}

/// Whether a record is that of a store grant.
pub open spec fn records_store_grant(w: WorldView, e: Entity, r: PersistedStoreGrantView) -> bool {
    has_identity(w, e) && w.domain.store_grants.contains_key(e) && w.domain.store_grant_for_agent.contains_key(e)
        && w.domain.store_grant_for_store.contains_key(e) && r.id == w.stable_ids[e] && r.tenant == w.tenants[e]
        && r.grant == w.domain.store_grants[e] && r.agent_id == w.stable_ids[w.domain.store_grant_for_agent[e]]
        && r.store_id == w.stable_ids[w.domain.store_grant_for_store[e]]
}

/// A snapshot holds a record of each source, model, agent, policy, tool, grant and store that has
/// an identity and a tenant, as it is and with the ids of what it refers to, and no others.
pub proof fn law_snapshots_hold_every_entity(w: WorldView, e: Entity)
    requires
        w.stable_ids.dom().finite(),
    ensures
        has_identity(w, e) && w.domain.sources.contains_key(e) ==> exists|r: PersistedDiscoverySourceView| #[trigger]
            records_source(w, e, r) && domain_records(w).discovery_sources.contains(r),
        forall|r: PersistedDiscoverySourceView| #[trigger]
            domain_records(w).discovery_sources.contains(r) ==> exists|f: Entity| #[trigger]
                records_source(w, f, r),
        has_identity(w, e) && w.domain.models.contains_key(e) ==> exists|r: PersistedModelView| #[trigger]
            records_model(w, e, r) && domain_records(w).models.contains(r),
        forall|r: PersistedModelView| #[trigger]
            domain_records(w).models.contains(r) ==> exists|f: Entity| #[trigger]
                records_model(w, f, r),
        has_identity(w, e) && w.domain.agents.contains_key(e) && w.domain.uses_model.contains_key(e) ==> exists|r: PersistedAgentView| #[trigger]
            records_agent(w, e, r) && domain_records(w).agents.contains(r),
        forall|r: PersistedAgentView| #[trigger]
            domain_records(w).agents.contains(r) ==> exists|f: Entity| #[trigger]
                records_agent(w, f, r),
        has_identity(w, e) && w.domain.policies.contains_key(e) && w.domain.policy_for.contains_key(e) ==> exists|r: PersistedPolicyView| #[trigger]
            records_policy(w, e, r) && domain_records(w).policies.contains(r),
        forall|r: PersistedPolicyView| #[trigger]
            domain_records(w).policies.contains(r) ==> exists|f: Entity| #[trigger]
                records_policy(w, f, r),
        has_identity(w, e) && w.domain.tools.contains_key(e) ==> exists|r: PersistedToolView| #[trigger]
            records_tool(w, e, r) && domain_records(w).tools.contains(r),
        forall|r: PersistedToolView| #[trigger]
            domain_records(w).tools.contains(r) ==> exists|f: Entity| #[trigger]
                records_tool(w, f, r),
        has_identity(w, e) && w.domain.tool_grants.contains_key(e) && w.domain.grant_for_agent.contains_key(e)
        && w.domain.grant_for_tool.contains_key(e) ==> exists|r: PersistedToolGrantView| #[trigger]
            records_tool_grant(w, e, r) && domain_records(w).tool_grants.contains(r),
        forall|r: PersistedToolGrantView| #[trigger]
            domain_records(w).tool_grants.contains(r) ==> exists|f: Entity| #[trigger]
                records_tool_grant(w, f, r),
        has_identity(w, e) && w.domain.stores.contains_key(e) ==> exists|r: PersistedStoreView| #[trigger]
            records_store(w, e, r) && domain_records(w).stores.contains(r),
        forall|r: PersistedStoreView| #[trigger]
            domain_records(w).stores.contains(r) ==> exists|f: Entity| #[trigger]
                records_store(w, f, r),
        has_identity(w, e) && w.domain.store_grants.contains_key(e) && w.domain.store_grant_for_agent.contains_key(e)
        && w.domain.store_grant_for_store.contains_key(e) ==> exists|r: PersistedStoreGrantView| #[trigger]
            records_store_grant(w, e, r) && domain_records(w).store_grants.contains(r),
        forall|r: PersistedStoreGrantView| #[trigger]
            domain_records(w).store_grants.contains(r) ==> exists|f: Entity| #[trigger]
                records_store_grant(w, f, r),
{
    let ids = entities_of(w.stable_ids.dom());
    lemma_entities(w.stable_ids.dom());
    lemma_source_records(w, ids, e);
    lemma_model_records(w, ids, e);
    lemma_agent_records(w, ids, e);
    lemma_policy_records(w, ids, e);
    lemma_tool_records(w, ids, e);
    lemma_tool_grant_records(w, ids, e);
    lemma_store_records(w, ids, e);
    lemma_store_grant_records(w, ids, e);
}

proof fn lemma_source_records(w: WorldView, ids: Seq<Entity>, e: Entity)
    requires
        ids == entities_of(w.stable_ids.dom()),
        ids.to_set() == w.stable_ids.dom(),
    ensures
        has_identity(w, e) && w.domain.sources.contains_key(e) ==> exists|r: PersistedDiscoverySourceView| #[trigger]
            records_source(w, e, r) && domain_records(w).discovery_sources.contains(r),
        forall|r: PersistedDiscoverySourceView| #[trigger]
            domain_records(w).discovery_sources.contains(r) ==> exists|f: Entity| #[trigger]
                records_source(w, f, r),
{
    let row = |e: Entity| source_row(w, e);
    assert(domain_records(w).discovery_sources == sorted_records(ids, row));
    if has_identity(w, e) && w.domain.sources.contains_key(e) {
        assert(ids.to_set().contains(e));
        let i = choose|i: int| 0 <= i < ids.len() && ids[i] == e;
        let r = value_of(source_row(w, e));
        assert(row(ids[i]) is Some && value_of(row(ids[i])) == r);
        lemma_sorted_records(ids, row, r);
        assert(records_source(w, e, r));
    }
    assert forall|r: PersistedDiscoverySourceView| #[trigger] domain_records(w).discovery_sources.contains(r) implies exists|f: Entity|
        #[trigger] records_source(w, f, r) by {
        lemma_sorted_records(ids, row, r);
        let i = choose|i: int|
            0 <= i < ids.len() && (#[trigger] row(ids[i])) is Some && value_of(row(ids[i])) == r;
        assert(records_source(w, ids[i], r));
    }
}

proof fn lemma_model_records(w: WorldView, ids: Seq<Entity>, e: Entity)
    requires
        ids == entities_of(w.stable_ids.dom()),
        ids.to_set() == w.stable_ids.dom(),
    ensures
        has_identity(w, e) && w.domain.models.contains_key(e) ==> exists|r: PersistedModelView| #[trigger]
            records_model(w, e, r) && domain_records(w).models.contains(r),
        forall|r: PersistedModelView| #[trigger]
            domain_records(w).models.contains(r) ==> exists|f: Entity| #[trigger]
                records_model(w, f, r),
{
    let row = |e: Entity| model_row(w, e);
    assert(domain_records(w).models == sorted_records(ids, row));
    if has_identity(w, e) && w.domain.models.contains_key(e) {
        assert(ids.to_set().contains(e));
        let i = choose|i: int| 0 <= i < ids.len() && ids[i] == e;
        let r = value_of(model_row(w, e));
        assert(row(ids[i]) is Some && value_of(row(ids[i])) == r);
        lemma_sorted_records(ids, row, r);
        assert(records_model(w, e, r));
    }
    assert forall|r: PersistedModelView| #[trigger] domain_records(w).models.contains(r) implies exists|f: Entity|
        #[trigger] records_model(w, f, r) by {
        lemma_sorted_records(ids, row, r);
        let i = choose|i: int|
            0 <= i < ids.len() && (#[trigger] row(ids[i])) is Some && value_of(row(ids[i])) == r;
        assert(records_model(w, ids[i], r));
    }
}

proof fn lemma_agent_records(w: WorldView, ids: Seq<Entity>, e: Entity)
    requires
        ids == entities_of(w.stable_ids.dom()),
        ids.to_set() == w.stable_ids.dom(),
    ensures
        has_identity(w, e) && w.domain.agents.contains_key(e) && w.domain.uses_model.contains_key(e) ==> exists|r: PersistedAgentView| #[trigger]
            records_agent(w, e, r) && domain_records(w).agents.contains(r),
        forall|r: PersistedAgentView| #[trigger]
            domain_records(w).agents.contains(r) ==> exists|f: Entity| #[trigger]
                records_agent(w, f, r),
{
    let row = |e: Entity| agent_row(w, e);
    assert(domain_records(w).agents == sorted_records(ids, row));
    if has_identity(w, e) && w.domain.agents.contains_key(e) && w.domain.uses_model.contains_key(e) {
        assert(ids.to_set().contains(e));
        let i = choose|i: int| 0 <= i < ids.len() && ids[i] == e;
        let r = value_of(agent_row(w, e));
        assert(row(ids[i]) is Some && value_of(row(ids[i])) == r);
        lemma_sorted_records(ids, row, r);
        assert(records_agent(w, e, r));
    }
    assert forall|r: PersistedAgentView| #[trigger] domain_records(w).agents.contains(r) implies exists|f: Entity|
        #[trigger] records_agent(w, f, r) by {
        lemma_sorted_records(ids, row, r);
        let i = choose|i: int|
            0 <= i < ids.len() && (#[trigger] row(ids[i])) is Some && value_of(row(ids[i])) == r;
        assert(records_agent(w, ids[i], r));
    }
}

proof fn lemma_policy_records(w: WorldView, ids: Seq<Entity>, e: Entity)
    requires
        ids == entities_of(w.stable_ids.dom()),
        ids.to_set() == w.stable_ids.dom(),
    ensures
        has_identity(w, e) && w.domain.policies.contains_key(e) && w.domain.policy_for.contains_key(e) ==> exists|r: PersistedPolicyView| #[trigger]
            records_policy(w, e, r) && domain_records(w).policies.contains(r),
        forall|r: PersistedPolicyView| #[trigger]
            domain_records(w).policies.contains(r) ==> exists|f: Entity| #[trigger]
                records_policy(w, f, r),
{
    let row = |e: Entity| policy_row(w, e);
    assert(domain_records(w).policies == sorted_records(ids, row));
    if has_identity(w, e) && w.domain.policies.contains_key(e) && w.domain.policy_for.contains_key(e) {
        assert(ids.to_set().contains(e));
        let i = choose|i: int| 0 <= i < ids.len() && ids[i] == e;
        let r = value_of(policy_row(w, e));
        assert(row(ids[i]) is Some && value_of(row(ids[i])) == r);
        lemma_sorted_records(ids, row, r);
        assert(records_policy(w, e, r));
    }
    assert forall|r: PersistedPolicyView| #[trigger] domain_records(w).policies.contains(r) implies exists|f: Entity|
        #[trigger] records_policy(w, f, r) by {
        lemma_sorted_records(ids, row, r);
        let i = choose|i: int|
            0 <= i < ids.len() && (#[trigger] row(ids[i])) is Some && value_of(row(ids[i])) == r;
        assert(records_policy(w, ids[i], r));
    }
}

proof fn lemma_tool_records(w: WorldView, ids: Seq<Entity>, e: Entity)
    requires
        ids == entities_of(w.stable_ids.dom()),
        ids.to_set() == w.stable_ids.dom(),
    ensures
        has_identity(w, e) && w.domain.tools.contains_key(e) ==> exists|r: PersistedToolView| #[trigger]
            records_tool(w, e, r) && domain_records(w).tools.contains(r),
        forall|r: PersistedToolView| #[trigger]
            domain_records(w).tools.contains(r) ==> exists|f: Entity| #[trigger]
                records_tool(w, f, r),
{
    let row = |e: Entity| tool_row(w, e);
    assert(domain_records(w).tools == sorted_records(ids, row));
    if has_identity(w, e) && w.domain.tools.contains_key(e) {
        assert(ids.to_set().contains(e));
        let i = choose|i: int| 0 <= i < ids.len() && ids[i] == e;
        let r = value_of(tool_row(w, e));
        assert(row(ids[i]) is Some && value_of(row(ids[i])) == r);
        lemma_sorted_records(ids, row, r);
        assert(records_tool(w, e, r));
    }
    assert forall|r: PersistedToolView| #[trigger] domain_records(w).tools.contains(r) implies exists|f: Entity|
        #[trigger] records_tool(w, f, r) by {
        lemma_sorted_records(ids, row, r);
        let i = choose|i: int|
            0 <= i < ids.len() && (#[trigger] row(ids[i])) is Some && value_of(row(ids[i])) == r;
        assert(records_tool(w, ids[i], r));
    }
}

proof fn lemma_tool_grant_records(w: WorldView, ids: Seq<Entity>, e: Entity)
    requires
        ids == entities_of(w.stable_ids.dom()),
        ids.to_set() == w.stable_ids.dom(),
    ensures
        has_identity(w, e) && w.domain.tool_grants.contains_key(e) && w.domain.grant_for_agent.contains_key(e)
        && w.domain.grant_for_tool.contains_key(e) ==> exists|r: PersistedToolGrantView| #[trigger]
            records_tool_grant(w, e, r) && domain_records(w).tool_grants.contains(r),
        forall|r: PersistedToolGrantView| #[trigger]
            domain_records(w).tool_grants.contains(r) ==> exists|f: Entity| #[trigger]
                records_tool_grant(w, f, r),
{
    let row = |e: Entity| tool_grant_row(w, e);
    assert(domain_records(w).tool_grants == sorted_records(ids, row));
    if has_identity(w, e) && w.domain.tool_grants.contains_key(e) && w.domain.grant_for_agent.contains_key(e)
        && w.domain.grant_for_tool.contains_key(e) {
        assert(ids.to_set().contains(e));
        let i = choose|i: int| 0 <= i < ids.len() && ids[i] == e;
        let r = value_of(tool_grant_row(w, e));
        assert(row(ids[i]) is Some && value_of(row(ids[i])) == r);
        lemma_sorted_records(ids, row, r);
        assert(records_tool_grant(w, e, r));
    }
    assert forall|r: PersistedToolGrantView| #[trigger] domain_records(w).tool_grants.contains(r) implies exists|f: Entity|
        #[trigger] records_tool_grant(w, f, r) by {
        lemma_sorted_records(ids, row, r);
        let i = choose|i: int|
            0 <= i < ids.len() && (#[trigger] row(ids[i])) is Some && value_of(row(ids[i])) == r;
        assert(records_tool_grant(w, ids[i], r));
    }
}

proof fn lemma_store_records(w: WorldView, ids: Seq<Entity>, e: Entity)
    requires
        ids == entities_of(w.stable_ids.dom()),
        ids.to_set() == w.stable_ids.dom(),
    ensures
        has_identity(w, e) && w.domain.stores.contains_key(e) ==> exists|r: PersistedStoreView| #[trigger]
            records_store(w, e, r) && domain_records(w).stores.contains(r),
        forall|r: PersistedStoreView| #[trigger]
            domain_records(w).stores.contains(r) ==> exists|f: Entity| #[trigger]
                records_store(w, f, r),
{
    let row = |e: Entity| store_row(w, e);
    assert(domain_records(w).stores == sorted_records(ids, row));
    if has_identity(w, e) && w.domain.stores.contains_key(e) {
        assert(ids.to_set().contains(e));
        let i = choose|i: int| 0 <= i < ids.len() && ids[i] == e;
        let r = value_of(store_row(w, e));
        assert(row(ids[i]) is Some && value_of(row(ids[i])) == r);
        lemma_sorted_records(ids, row, r);
        assert(records_store(w, e, r));
    }
    assert forall|r: PersistedStoreView| #[trigger] domain_records(w).stores.contains(r) implies exists|f: Entity|
        #[trigger] records_store(w, f, r) by {
        lemma_sorted_records(ids, row, r);
        let i = choose|i: int|
            0 <= i < ids.len() && (#[trigger] row(ids[i])) is Some && value_of(row(ids[i])) == r;
        assert(records_store(w, ids[i], r));
    }
}

proof fn lemma_store_grant_records(w: WorldView, ids: Seq<Entity>, e: Entity)
    requires
        ids == entities_of(w.stable_ids.dom()),
        ids.to_set() == w.stable_ids.dom(),
    ensures
        has_identity(w, e) && w.domain.store_grants.contains_key(e) && w.domain.store_grant_for_agent.contains_key(e)
        && w.domain.store_grant_for_store.contains_key(e) ==> exists|r: PersistedStoreGrantView| #[trigger]
            records_store_grant(w, e, r) && domain_records(w).store_grants.contains(r),
        forall|r: PersistedStoreGrantView| #[trigger]
            domain_records(w).store_grants.contains(r) ==> exists|f: Entity| #[trigger]
                records_store_grant(w, f, r),
{
    let row = |e: Entity| store_grant_row(w, e);
    assert(domain_records(w).store_grants == sorted_records(ids, row));
    if has_identity(w, e) && w.domain.store_grants.contains_key(e) && w.domain.store_grant_for_agent.contains_key(e)
        && w.domain.store_grant_for_store.contains_key(e) {
        assert(ids.to_set().contains(e));
        let i = choose|i: int| 0 <= i < ids.len() && ids[i] == e;
        let r = value_of(store_grant_row(w, e));
        assert(row(ids[i]) is Some && value_of(row(ids[i])) == r);
        lemma_sorted_records(ids, row, r);
        assert(records_store_grant(w, e, r));
    }
    assert forall|r: PersistedStoreGrantView| #[trigger] domain_records(w).store_grants.contains(r) implies exists|f: Entity|
        #[trigger] records_store_grant(w, f, r) by {
        lemma_sorted_records(ids, row, r);
        let i = choose|i: int|
            0 <= i < ids.len() && (#[trigger] row(ids[i])) is Some && value_of(row(ids[i])) == r;
        assert(records_store_grant(w, ids[i], r));
    }
}

/// Whether an entity is an agent with an identity and a model.
pub open spec fn is_whole_agent(w: WorldView, e: Entity) -> bool {
    has_identity(w, e) && w.domain.agents.contains_key(e) && w.domain.uses_model.contains_key(e)
}

/// Whether no relationship of what is persisted leads to something that is not persisted as what
/// it should be.
pub open spec fn refers_to_what_is_there(w: WorldView, e: Entity) -> bool {
    let d = w.domain;
    &&& is_whole_agent(w, e) ==> has_identity(w, d.uses_model[e]) && d.models.contains_key(
        d.uses_model[e],
    )
    &&& has_identity(w, e) && d.policies.contains_key(e) && d.policy_for.contains_key(e)
        ==> is_whole_agent(w, d.policy_for[e])
    &&& has_identity(w, e) && d.tools.contains_key(e) ==> d.discovered_from.contains_key(e)
        == d.discovery_keys.contains_key(e)
    &&& has_identity(w, e) && d.tools.contains_key(e) && d.discovered_from.contains_key(e)
        ==> has_identity(w, d.discovered_from[e]) && d.sources.contains_key(d.discovered_from[e])
    &&& has_identity(w, e) && d.tool_grants.contains_key(e) && d.grant_for_agent.contains_key(e)
        && d.grant_for_tool.contains_key(e) ==> is_whole_agent(w, d.grant_for_agent[e])
        && has_identity(w, d.grant_for_tool[e]) && d.tools.contains_key(d.grant_for_tool[e])
    &&& has_identity(w, e) && d.store_grants.contains_key(e)
        && d.store_grant_for_agent.contains_key(e) && d.store_grant_for_store.contains_key(e)
        ==> is_whole_agent(w, d.store_grant_for_agent[e]) && has_identity(
        w,
        d.store_grant_for_store[e],
    ) && d.stores.contains_key(d.store_grant_for_store[e])
}

/// A world can be persisted exactly where no relationship of what is persisted is stale.
pub proof fn law_stale_relationships_are_not_persisted(w: WorldView)
    requires
        w.stable_ids.dom().finite(),
    ensures
        first_stale(w) is None <==> forall|e: Entity|
            w.stable_ids.contains_key(e) ==> #[trigger] refers_to_what_is_there(w, e),
{
    let ids = entities_of(w.stable_ids.dom());
    lemma_entities(w.stable_ids.dom());
    let agent = |e: Entity| stale_agent(w, e);
    let policy = |e: Entity| stale_policy(w, e);
    let tool = |e: Entity| stale_tool(w, e);
    let tool_grant = |e: Entity| stale_tool_grant(w, e);
    let store_grant = |e: Entity| stale_store_grant(w, e);
    lemma_first_none(ids, agent, 0);
    lemma_first_none(ids, policy, 0);
    lemma_first_none(ids, tool, 0);
    lemma_first_none(ids, tool_grant, 0);
    lemma_first_none(ids, store_grant, 0);
    assert forall|e: Entity| #[trigger] refers_to_what_is_there(w, e) <==> agent(e) is None
        && policy(e) is None && tool(e) is None && tool_grant(e) is None && store_grant(e)
        is None by {}
    if first_stale(w) is None {
        assert forall|e: Entity| w.stable_ids.contains_key(e) implies #[trigger]
            refers_to_what_is_there(w, e) by {
            assert(ids.to_set().contains(e));
            let i = choose|i: int| 0 <= i < ids.len() && ids[i] == e;
            assert(agent(ids[i]) is None && policy(ids[i]) is None && tool(ids[i]) is None
                && tool_grant(ids[i]) is None && store_grant(ids[i]) is None);
        }
    }
    if forall|e: Entity|
        w.stable_ids.contains_key(e) ==> #[trigger] refers_to_what_is_there(w, e) {
        assert forall|i: int| 0 <= i < ids.len() implies agent(#[trigger] ids[i]) is None && policy(
            ids[i],
        ) is None && tool(ids[i]) is None && tool_grant(ids[i]) is None && store_grant(ids[i])
            is None by {
            assert(ids.to_set().contains(ids[i]));
            assert(refers_to_what_is_there(w, ids[i]));
        }
    }
}

/// A tool with a source and no key, or a key and no source, is refused with what it has; one with
/// both is refused for a source that is not there or belongs to another tenant.
pub proof fn law_broken_provenance_is_named(
    w: WorldView,
    s: DomainSnapshotView,
    tool: PersistedToolView,
)
    requires
        w.stable_ids == Map::<Entity, Seq<char>>::empty(),
        all_ids(s).no_duplicates(),
    ensures
        ({
            let fault = provenance_fault(source_tenants(w, s), tool);
            &&& tool.source_id is Some && tool.discovery_key is None ==> fault == Some(
                PersistenceErrorView::MissingReference(tool.source_id->0),
            )
            &&& tool.source_id is None && tool.discovery_key is Some ==> fault == Some(
                PersistenceErrorView::MissingReference(tool.discovery_key->0),
            )
            &&& tool.source_id is Some && tool.discovery_key is Some && !holds_source(
                s,
                tool.source_id->0,
                tool.tenant,
            ) ==> fault == Some(
                broken_reference(
                    exists|t: Seq<char>| #[trigger] holds_source(s, tool.source_id->0, t),
                    tool.source_id->0,
                ),
            )
        }),
{
    if tool.source_id is Some {
        let id = tool.source_id->0;
        lemma_known(w, s, id, tool.tenant);
        lemma_known(w, s, id, source_tenants(w, s)[id]);
        if exists|t: Seq<char>| #[trigger] holds_source(s, id, t) {
            let t = choose|t: Seq<char>| #[trigger] holds_source(s, id, t);
            lemma_known(w, s, id, t);
        }
    }
}

} // verus!
