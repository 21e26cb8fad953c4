//! Snapshots of the configured entities.

use vstd::prelude::*;

use crate::column::{entities_of, Entity};
use crate::fold::{first_picked, lemma_picked_next, picked};
use crate::identity::StableId;
use crate::persisted::{
    DomainSnapshot, DomainSnapshotView, PersistedAgent, PersistedAgentView,
    PersistedDiscoverySource, PersistedDiscoverySourceView, PersistedModel, PersistedModelView,
    PersistedPolicy, PersistedPolicyView, PersistedStore, PersistedStoreGrant,
    PersistedStoreGrantView, PersistedStoreView, PersistedTool, PersistedToolGrant,
    PersistedToolGrantView, PersistedToolView,
};
use crate::run::{PersistenceError, PersistenceErrorView};
use crate::sorting::{row_values, sort_rows, sort_values, KeyPart, KeyPartView, KeyView};
use crate::world::{World, WorldView};

verus! {

/// Whether an entity has an identity and a tenant.
pub open spec fn identified(w: WorldView, e: Entity) -> bool {
    w.stable_ids.contains_key(e) && w.tenants.contains_key(e)
}

/// Whether an entity is persisted as a discovery source.
pub open spec fn is_source(w: WorldView, e: Entity) -> bool {
    identified(w, e) && w.domain.sources.contains_key(e)
}

/// Whether an entity is persisted as a model.
pub open spec fn is_model(w: WorldView, e: Entity) -> bool {
    identified(w, e) && w.domain.models.contains_key(e)
}

/// Whether an entity is persisted as an agent.
pub open spec fn is_agent(w: WorldView, e: Entity) -> bool {
    identified(w, e) && w.domain.agents.contains_key(e) && w.domain.uses_model.contains_key(e)
}

/// Whether an entity is persisted as a policy.
pub open spec fn is_policy(w: WorldView, e: Entity) -> bool {
    identified(w, e) && w.domain.policies.contains_key(e) && w.domain.policy_for.contains_key(e)
}

/// Whether an entity is persisted as a tool.
pub open spec fn is_tool(w: WorldView, e: Entity) -> bool {
    identified(w, e) && w.domain.tools.contains_key(e)
}

/// Whether an entity is persisted as a tool grant.
pub open spec fn is_tool_grant(w: WorldView, e: Entity) -> bool {
    &&& identified(w, e)
    &&& w.domain.tool_grants.contains_key(e)
    &&& w.domain.grant_for_agent.contains_key(e)
    &&& w.domain.grant_for_tool.contains_key(e)
}

/// Whether an entity is persisted as a store.
pub open spec fn is_store(w: WorldView, e: Entity) -> bool {
    identified(w, e) && w.domain.stores.contains_key(e)
}

/// Whether an entity is persisted as a store grant.
pub open spec fn is_store_grant(w: WorldView, e: Entity) -> bool {
    &&& identified(w, e)
    &&& w.domain.store_grants.contains_key(e)
    &&& w.domain.store_grant_for_agent.contains_key(e)
    &&& w.domain.store_grant_for_store.contains_key(e)
}

/// The target of an agent's relationship, if it leads nowhere.
pub open spec fn stale_agent(w: WorldView, e: Entity) -> Option<Entity> {
    if is_agent(w, e) && !is_model(w, w.domain.uses_model[e]) {
        Some(w.domain.uses_model[e])
    } else {
        None
    }
}

/// The target of a policy's relationship, if it leads nowhere.
pub open spec fn stale_policy(w: WorldView, e: Entity) -> Option<Entity> {
    if is_policy(w, e) && !is_agent(w, w.domain.policy_for[e]) {
        Some(w.domain.policy_for[e])
    } else {
        None
    }
}

/// What is stale in the provenance of a tool: its source, or the tool itself where it has a
/// source-local key and no source.
pub open spec fn stale_tool(w: WorldView, e: Entity) -> Option<Entity> {
    let has_source = w.domain.discovered_from.contains_key(e);
    let has_key = w.domain.discovery_keys.contains_key(e);
    if !is_tool(w, e) {
        None
    } else if has_source && !(has_key && is_source(w, w.domain.discovered_from[e])) {
        Some(w.domain.discovered_from[e])
    } else if !has_source && has_key {
        Some(e)
    } else {
        None
    }
}

/// The first target of a tool grant's relationships that leads nowhere.
pub open spec fn stale_tool_grant(w: WorldView, e: Entity) -> Option<Entity> {
    if !is_tool_grant(w, e) {
        None
    } else if !is_agent(w, w.domain.grant_for_agent[e]) {
        Some(w.domain.grant_for_agent[e])
    } else if !is_tool(w, w.domain.grant_for_tool[e]) {
        Some(w.domain.grant_for_tool[e])
    } else {
        None
    }
}

/// The first target of a store grant's relationships that leads nowhere.
pub open spec fn stale_store_grant(w: WorldView, e: Entity) -> Option<Entity> {
    if !is_store_grant(w, e) {
        None
    } else if !is_agent(w, w.domain.store_grant_for_agent[e]) {
        Some(w.domain.store_grant_for_agent[e])
    } else if !is_store(w, w.domain.store_grant_for_store[e]) {
        Some(w.domain.store_grant_for_store[e])
    } else {
        None
    }
}

/// Records are ordered by their identity.
pub open spec fn id_key(id: Seq<char>) -> KeyView {
    seq![KeyPartView::Text(id)]
}

/// The record of a discovery source.
pub open spec fn source_row(w: WorldView, e: Entity) -> Option<
    (KeyView, PersistedDiscoverySourceView),
> {
    if is_source(w, e) {
        Some(
            (
                id_key(w.stable_ids[e]),
                PersistedDiscoverySourceView {
                    id: w.stable_ids[e],
                    tenant: w.tenants[e],
                    kind: w.domain.sources[e].kind,
                    generation: w.domain.sources[e].generation,
                },
            ),
        )
    } else {
        None
    }
}

/// The record of a model.
pub open spec fn model_row(w: WorldView, e: Entity) -> Option<(KeyView, PersistedModelView)> {
    if is_model(w, e) {
        Some(
            (
                id_key(w.stable_ids[e]),
                PersistedModelView {
                    id: w.stable_ids[e],
                    tenant: w.tenants[e],
                    capability: w.domain.models[e],
                },
            ),
        )
    } else {
        None
    }
}

/// The value under a key of a map, if there is one.
pub open spec fn entry<K, V>(m: Map<K, V>, k: K) -> Option<V> {
    if m.contains_key(k) {
        Some(m[k])
    } else {
        None
    }
}

/// The record of an agent.
pub open spec fn agent_row(w: WorldView, e: Entity) -> Option<(KeyView, PersistedAgentView)> {
    if is_agent(w, e) {
        Some(
            (
                id_key(w.stable_ids[e]),
                PersistedAgentView {
                    id: w.stable_ids[e],
                    tenant: w.tenants[e],
                    agent: w.domain.agents[e],
                    model_id: w.stable_ids[w.domain.uses_model[e]],
                    output_requirement: entry(w.domain.output_requirements, e),
                    retrieval_requirement: entry(w.domain.retrieval_requirements, e),
                },
            ),
        )
    } else {
        None
    }
}

/// The record of a policy.
pub open spec fn policy_row(w: WorldView, e: Entity) -> Option<(KeyView, PersistedPolicyView)> {
    if is_policy(w, e) {
        Some(
            (
                id_key(w.stable_ids[e]),
                PersistedPolicyView {
                    id: w.stable_ids[e],
                    tenant: w.tenants[e],
                    policy: w.domain.policies[e],
                    agent_id: w.stable_ids[w.domain.policy_for[e]],
                },
            ),
        )
    } else {
        None
    }
}

/// The record of a tool.
pub open spec fn tool_row(w: WorldView, e: Entity) -> Option<(KeyView, PersistedToolView)> {
    if is_tool(w, e) {
        Some(
            (
                id_key(w.stable_ids[e]),
                PersistedToolView {
                    id: w.stable_ids[e],
                    tenant: w.tenants[e],
                    capability: w.domain.tools[e],
                    source_id: if w.domain.discovered_from.contains_key(e) {
                        Some(w.stable_ids[w.domain.discovered_from[e]])
                    } else {
                        None
                    },
                    discovery_key: if w.domain.discovery_keys.contains_key(e) {
                        Some(w.domain.discovery_keys[e].0)
                    } else {
                        None
                    },
                },
            ),
        )
    } else {
        None
    }
}

/// The record of a tool grant.
pub open spec fn tool_grant_row(w: WorldView, e: Entity) -> Option<
    (KeyView, PersistedToolGrantView),
> {
    if is_tool_grant(w, e) {
        Some(
            (
                id_key(w.stable_ids[e]),
                PersistedToolGrantView {
                    id: w.stable_ids[e],
                    tenant: w.tenants[e],
                    grant: w.domain.tool_grants[e],
                    agent_id: w.stable_ids[w.domain.grant_for_agent[e]],
                    tool_id: w.stable_ids[w.domain.grant_for_tool[e]],
                },
            ),
        )
    } else {
        None
    }
}

/// The record of a store.
pub open spec fn store_row(w: WorldView, e: Entity) -> Option<(KeyView, PersistedStoreView)> {
    if is_store(w, e) {
        Some(
            (
                id_key(w.stable_ids[e]),
                PersistedStoreView {
                    id: w.stable_ids[e],
                    tenant: w.tenants[e],
                    capability: w.domain.stores[e],
                },
            ),
        )
    } else {
        None
    }
}

/// The record of a store grant.
pub open spec fn store_grant_row(w: WorldView, e: Entity) -> Option<
    (KeyView, PersistedStoreGrantView),
> {
    if is_store_grant(w, e) {
        Some(
            (
                id_key(w.stable_ids[e]),
                PersistedStoreGrantView {
                    id: w.stable_ids[e],
                    tenant: w.tenants[e],
                    grant: w.domain.store_grants[e],
                    agent_id: w.stable_ids[w.domain.store_grant_for_agent[e]],
                    store_id: w.stable_ids[w.domain.store_grant_for_store[e]],
                },
            ),
        )
    } else {
        None
    }
}

/// The records that `row` gives for the entities, in the order of their ids.
pub open spec fn sorted_records<V>(
    ids: Seq<Entity>,
    row: spec_fn(Entity) -> Option<(KeyView, V)>,
) -> Seq<V> {
    row_values(sort_rows(picked(ids, row)))
}

/// The first stale relationship of the persisted entities: of agents, then policies, tools, tool
/// grants and store grants.
pub open spec fn first_stale(w: WorldView) -> Option<Entity> {
    let ids = entities_of(w.stable_ids.dom());
    if let Some(e) = first_picked(ids, |e: Entity| stale_agent(w, e), 0) {
        Some(e)
    } else if let Some(e) = first_picked(ids, |e: Entity| stale_policy(w, e), 0) {
        Some(e)
    } else if let Some(e) = first_picked(ids, |e: Entity| stale_tool(w, e), 0) {
        Some(e)
    } else if let Some(e) = first_picked(ids, |e: Entity| stale_tool_grant(w, e), 0) {
        Some(e)
    } else {
        first_picked(ids, |e: Entity| stale_store_grant(w, e), 0)
    }
}

/// The records of all persisted entities.
pub open spec fn domain_records(w: WorldView) -> DomainSnapshotView {
    let ids = entities_of(w.stable_ids.dom());
    DomainSnapshotView {
        discovery_sources: sorted_records(ids, |e: Entity| source_row(w, e)),
        models: sorted_records(ids, |e: Entity| model_row(w, e)),
        agents: sorted_records(ids, |e: Entity| agent_row(w, e)),
        policies: sorted_records(ids, |e: Entity| policy_row(w, e)),
        tools: sorted_records(ids, |e: Entity| tool_row(w, e)),
        tool_grants: sorted_records(ids, |e: Entity| tool_grant_row(w, e)),
        stores: sorted_records(ids, |e: Entity| store_row(w, e)),
        store_grants: sorted_records(ids, |e: Entity| store_grant_row(w, e)),
    }
}

fn find_first<F: Fn(Entity) -> Option<Entity>>(
    ids: &Vec<Entity>,
    find: F,
    Ghost(pick): Ghost<spec_fn(Entity) -> Option<Entity>>,
) -> (r: Option<Entity>)
    requires
        forall|e: Entity| #[trigger] find.requires((e,)),
        forall|e: Entity, r: Option<Entity>| find.ensures((e,), r) ==> r == pick(e),
    ensures
        r == first_picked(ids@, pick, 0),
{
    let mut i: usize = 0;
    while i < ids.len()
        invariant
            i <= ids@.len(),
            forall|e: Entity| #[trigger] find.requires((e,)),
            forall|e: Entity, r: Option<Entity>| find.ensures((e,), r) ==> r == pick(e),
            first_picked(ids@, pick, 0) == first_picked(ids@, pick, i as int),
        decreases ids@.len() - i,
    {
        if let Some(found) = find(ids[i]) {
            return Some(found);
        }
        i = i + 1;
    }
    None
}

fn collect_records<T: DeepView, F: Fn(Entity) -> Option<(Vec<KeyPart>, T)>>(
    ids: &Vec<Entity>,
    record: F,
    Ghost(row): Ghost<spec_fn(Entity) -> Option<(KeyView, T::V)>>,
) -> (r: Vec<T>)
    requires
        forall|e: Entity| #[trigger] record.requires((e,)),
        forall|e: Entity, r: Option<(Vec<KeyPart>, T)>|
            record.ensures((e,), r) ==> r.deep_view() == row(e),
    ensures
        r.deep_view() == sorted_records(ids@, row),
{
    broadcast use crate::fold::group_fold;

    let mut rows: Vec<(Vec<KeyPart>, T)> = Vec::new();
    let mut i: usize = 0;
    assert(rows.deep_view() =~= Seq::empty());
    while i < ids.len()
        invariant
            i <= ids@.len(),
            forall|e: Entity| #[trigger] record.requires((e,)),
            forall|e: Entity, r: Option<(Vec<KeyPart>, T)>|
                record.ensures((e,), r) ==> r.deep_view() == row(e),
            rows.deep_view() == picked(ids@.take(i as int), row),
        decreases ids@.len() - i,
    {
        proof {
            lemma_picked_next(ids@, i as int, row);
        }
        let ghost before = rows.deep_view();
        if let Some(found) = record(ids[i]) {
            rows.push(found);
            assert(rows.deep_view() =~= before.push(found.deep_view()));
        }
        i = i + 1;
    }
    sort_values(rows)
}

fn has_identity(world: &World, e: Entity) -> (r: bool)
    ensures
        r == identified(world@, e),
{
    world.stable_ids.contains(e) && world.tenants.contains(e)
}

fn model_like(world: &World, e: Entity) -> (r: bool)
    ensures
        r == is_model(world@, e),
{
    has_identity(world, e) && world.domain.models.contains(e)
}

fn agent_like(world: &World, e: Entity) -> (r: bool)
    ensures
        r == is_agent(world@, e),
{
    has_identity(world, e) && world.domain.agents.contains(e) && world.domain.uses_model.contains(e)
}

fn tool_like(world: &World, e: Entity) -> (r: bool)
    ensures
        r == is_tool(world@, e),
{
    has_identity(world, e) && world.domain.tools.contains(e)
}

fn store_like(world: &World, e: Entity) -> (r: bool)
    ensures
        r == is_store(world@, e),
{
    has_identity(world, e) && world.domain.stores.contains(e)
}

fn source_like(world: &World, e: Entity) -> (r: bool)
    ensures
        r == is_source(world@, e),
{
    has_identity(world, e) && world.domain.sources.contains(e)
}

fn find_stale_agent(world: &World, e: Entity) -> (r: Option<Entity>)
    ensures
        r == stale_agent(world@, e),
{
    if !agent_like(world, e) {
        return None;
    }
    match world.domain.uses_model.get(e) {
        Some(target) => if model_like(world, *target) {
            None
        } else {
            Some(*target)
        },
        None => None,
    }
}

fn find_stale_policy(world: &World, e: Entity) -> (r: Option<Entity>)
    ensures
        r == stale_policy(world@, e),
{
    if !has_identity(world, e) || !world.domain.policies.contains(e) {
        return None;
    }
    match world.domain.policy_for.get(e) {
        Some(target) => if agent_like(world, *target) {
            None
        } else {
            Some(*target)
        },
        None => None,
    }
}

fn find_stale_tool(world: &World, e: Entity) -> (r: Option<Entity>)
    ensures
        r == stale_tool(world@, e),
{
    if !tool_like(world, e) {
        return None;
    }
    let keyed = world.domain.discovery_keys.contains(e);
    match world.domain.discovered_from.get(e) {
        Some(source) => if keyed && source_like(world, *source) {
            None
        } else {
            Some(*source)
        },
        None => if keyed {
            Some(e)
        } else {
            None
        },
    }
}

fn find_stale_tool_grant(world: &World, e: Entity) -> (r: Option<Entity>)
    ensures
        r == stale_tool_grant(world@, e),
{
    if !has_identity(world, e) || !world.domain.tool_grants.contains(e) {
        return None;
    }
    match (world.domain.grant_for_agent.get(e), world.domain.grant_for_tool.get(e)) {
        (Some(agent), Some(tool)) => if !agent_like(world, *agent) {
            Some(*agent)
        } else if !tool_like(world, *tool) {
            Some(*tool)
        } else {
            None
        },
        _ => None,
    }
}

fn find_stale_store_grant(world: &World, e: Entity) -> (r: Option<Entity>)
    ensures
        r == stale_store_grant(world@, e),
{
    if !has_identity(world, e) || !world.domain.store_grants.contains(e) {
        return None;
    }
    match (world.domain.store_grant_for_agent.get(e), world.domain.store_grant_for_store.get(e)) {
        (Some(agent), Some(store)) => if !agent_like(world, *agent) {
            Some(*agent)
        } else if !store_like(world, *store) {
            Some(*store)
        } else {
            None
        },
        _ => None,
    }
}

fn find_stale(world: &World, ids: &Vec<Entity>) -> (r: Option<Entity>)
    requires
        ids@ == entities_of(world@.stable_ids.dom()),
    ensures
        r == first_stale(world@),
{
    let find = |e: Entity| -> (r: Option<Entity>)
        ensures
            r == stale_agent(world@, e),
    {
        find_stale_agent(world, e)
    };
    let agents = find_first(ids, find, Ghost(|e: Entity| stale_agent(world@, e)));
    if agents.is_some() {
        return agents;
    }
    let find = |e: Entity| -> (r: Option<Entity>)
        ensures
            r == stale_policy(world@, e),
    {
        find_stale_policy(world, e)
    };
    let policies = find_first(ids, find, Ghost(|e: Entity| stale_policy(world@, e)));
    if policies.is_some() {
        return policies;
    }
    let find = |e: Entity| -> (r: Option<Entity>)
        ensures
            r == stale_tool(world@, e),
    {
        find_stale_tool(world, e)
    };
    let tools = find_first(ids, find, Ghost(|e: Entity| stale_tool(world@, e)));
    if tools.is_some() {
        return tools;
    }
    let find = |e: Entity| -> (r: Option<Entity>)
        ensures
            r == stale_tool_grant(world@, e),
    {
        find_stale_tool_grant(world, e)
    };
    let tool_grants = find_first(ids, find, Ghost(|e: Entity| stale_tool_grant(world@, e)));
    if tool_grants.is_some() {
        return tool_grants;
    }
    let find = |e: Entity| -> (r: Option<Entity>)
        ensures
            r == stale_store_grant(world@, e),
    {
        find_stale_store_grant(world, e)
    };
    find_first(ids, find, Ghost(|e: Entity| stale_store_grant(world@, e)))
}

fn key_of(id: &StableId) -> (r: Vec<KeyPart>)
    ensures
        r.deep_view() == id_key(id@),
{
    let key = vec![KeyPart::Text(id.text())];
    assert(key.deep_view() =~= id_key(id@));
    key
}

fn persist_source(world: &World, e: Entity) -> (r: Option<(Vec<KeyPart>, PersistedDiscoverySource)>)
    ensures
        r.deep_view() == source_row(world@, e),
{
    match (world.stable_ids.get(e), world.tenants.get(e), world.domain.sources.get(e)) {
        (Some(id), Some(tenant), Some(source)) => Some(
            (
                key_of(id),
                PersistedDiscoverySource {
                    id: id.clone(),
                    tenant: tenant.clone(),
                    kind: source.kind.clone(),
                    generation: source.generation,
                },
            ),
        ),
        _ => None,
    }
}

fn persist_model(world: &World, e: Entity) -> (r: Option<(Vec<KeyPart>, PersistedModel)>)
    ensures
        r.deep_view() == model_row(world@, e),
{
    match (world.stable_ids.get(e), world.tenants.get(e), world.domain.models.get(e)) {
        (Some(id), Some(tenant), Some(model)) => Some(
            (
                key_of(id),
                PersistedModel {
                    id: id.clone(),
                    tenant: tenant.clone(),
                    capability: model.clone(),
                },
            ),
        ),
        _ => None,
    }
}

fn persist_agent(world: &World, e: Entity) -> (r: Option<(Vec<KeyPart>, PersistedAgent)>)
    requires
        stale_agent(world@, e) is None,
    ensures
        r.deep_view() == agent_row(world@, e),
{
    match (
        world.stable_ids.get(e),
        world.tenants.get(e),
        world.domain.agents.get(e),
        world.domain.uses_model.get(e),
    ) {
        (Some(id), Some(tenant), Some(agent), Some(model)) => match world.stable_ids.get(*model) {
            Some(model_id) => Some(
                (
                    key_of(id),
                    PersistedAgent {
                        id: id.clone(),
                        tenant: tenant.clone(),
                        agent: agent.clone(),
                        model_id: model_id.clone(),
                        output_requirement: match world.domain.output_requirements.get(e) {
                            Some(requirement) => Some(requirement.clone()),
                            None => None,
                        },
                        retrieval_requirement: match world.domain.retrieval_requirements.get(e) {
                            Some(requirement) => Some(*requirement),
                            None => None,
                        },
                    },
                ),
            ),
            None => None,
        },
        _ => None,
    }
}

fn persist_policy(world: &World, e: Entity) -> (r: Option<(Vec<KeyPart>, PersistedPolicy)>)
    requires
        stale_policy(world@, e) is None,
    ensures
        r.deep_view() == policy_row(world@, e),
{
    match (
        world.stable_ids.get(e),
        world.tenants.get(e),
        world.domain.policies.get(e),
        world.domain.policy_for.get(e),
    ) {
        (Some(id), Some(tenant), Some(policy), Some(agent)) => match world.stable_ids.get(*agent) {
            Some(agent_id) => Some(
                (
                    key_of(id),
                    PersistedPolicy {
                        id: id.clone(),
                        tenant: tenant.clone(),
                        policy: policy.clone(),
                        agent_id: agent_id.clone(),
                    },
                ),
            ),
            None => None,
        },
        _ => None,
    }
}

fn persist_tool(world: &World, e: Entity) -> (r: Option<(Vec<KeyPart>, PersistedTool)>)
    requires
        stale_tool(world@, e) is None,
    ensures
        r.deep_view() == tool_row(world@, e),
{
    match (world.stable_ids.get(e), world.tenants.get(e), world.domain.tools.get(e)) {
        (Some(id), Some(tenant), Some(tool)) => {
            let source_id = match world.domain.discovered_from.get(e) {
                Some(source) => match world.stable_ids.get(*source) {
                    Some(source_id) => Some(source_id.clone()),
                    None => None,
                },
                None => None,
            };
            let discovery_key = match world.domain.discovery_keys.get(e) {
                Some(key) => Some(key.0.clone()),
                None => None,
            };
            Some(
                (
                    key_of(id),
                    PersistedTool {
                        id: id.clone(),
                        tenant: tenant.clone(),
                        capability: tool.clone(),
                        source_id,
                        discovery_key,
                    },
                ),
            )
        },
        _ => None,
    }
}

fn persist_tool_grant(world: &World, e: Entity) -> (r: Option<(Vec<KeyPart>, PersistedToolGrant)>)
    requires
        stale_tool_grant(world@, e) is None,
    ensures
        r.deep_view() == tool_grant_row(world@, e),
{
    match (
        world.stable_ids.get(e),
        world.tenants.get(e),
        world.domain.tool_grants.get(e),
        world.domain.grant_for_agent.get(e),
        world.domain.grant_for_tool.get(e),
    ) {
        (Some(id), Some(tenant), Some(grant), Some(agent), Some(tool)) => match (
            world.stable_ids.get(*agent),
            world.stable_ids.get(*tool),
        ) {
            (Some(agent_id), Some(tool_id)) => Some(
                (
                    key_of(id),
                    PersistedToolGrant {
                        id: id.clone(),
                        tenant: tenant.clone(),
                        grant: *grant,
                        agent_id: agent_id.clone(),
                        tool_id: tool_id.clone(),
                    },
                ),
            ),
            _ => None,
        },
        _ => None,
    }
}

fn persist_store(world: &World, e: Entity) -> (r: Option<(Vec<KeyPart>, PersistedStore)>)
    ensures
        r.deep_view() == store_row(world@, e),
{
    match (world.stable_ids.get(e), world.tenants.get(e), world.domain.stores.get(e)) {
        (Some(id), Some(tenant), Some(store)) => Some(
            (
                key_of(id),
                PersistedStore {
                    id: id.clone(),
                    tenant: tenant.clone(),
                    capability: store.clone(),
                },
            ),
        ),
        _ => None,
    }
}

fn persist_store_grant(world: &World, e: Entity) -> (r: Option<
    (Vec<KeyPart>, PersistedStoreGrant),
>)
    requires
        stale_store_grant(world@, e) is None,
    ensures
        r.deep_view() == store_grant_row(world@, e),
{
    match (
        world.stable_ids.get(e),
        world.tenants.get(e),
        world.domain.store_grants.get(e),
        world.domain.store_grant_for_agent.get(e),
        world.domain.store_grant_for_store.get(e),
    ) {
        (Some(id), Some(tenant), Some(grant), Some(agent), Some(store)) => match (
            world.stable_ids.get(*agent),
            world.stable_ids.get(*store),
        ) {
            (Some(agent_id), Some(store_id)) => Some(
                (
                    key_of(id),
                    PersistedStoreGrant {
                        id: id.clone(),
                        tenant: tenant.clone(),
                        grant: *grant,
                        agent_id: agent_id.clone(),
                        store_id: store_id.clone(),
                    },
                ),
            ),
            _ => None,
        },
        _ => None,
    }
}

/// Where nothing is picked first, nothing is picked at all.
proof fn lemma_none_picked<A, B>(items: Seq<A>, pick: spec_fn(A) -> Option<B>, from: int)
    requires
        first_picked(items, pick, from) is None,
        0 <= from,
    ensures
        forall|i: int| from <= i < items.len() ==> pick(#[trigger] items[i]) is None,
    decreases items.len() - from,
{
    if from < items.len() {
        lemma_none_picked(items, pick, from + 1);
    }
}

/// In a world without stale relationships no entity has one.
pub proof fn lemma_nothing_stale(w: WorldView, ids: Seq<Entity>)
    requires
        ids == entities_of(w.stable_ids.dom()),
        ids.to_set() == w.stable_ids.dom(),
        first_stale(w) is None,
    ensures
        forall|e: Entity| #[trigger] stale_agent(w, e) is None,
        forall|e: Entity| #[trigger] stale_policy(w, e) is None,
        forall|e: Entity| #[trigger] stale_tool(w, e) is None,
        forall|e: Entity| #[trigger] stale_tool_grant(w, e) is None,
        forall|e: Entity| #[trigger] stale_store_grant(w, e) is None,
{
    lemma_none_picked(ids, |e: Entity| stale_agent(w, e), 0);
    lemma_none_picked(ids, |e: Entity| stale_policy(w, e), 0);
    lemma_none_picked(ids, |e: Entity| stale_tool(w, e), 0);
    lemma_none_picked(ids, |e: Entity| stale_tool_grant(w, e), 0);
    lemma_none_picked(ids, |e: Entity| stale_store_grant(w, e), 0);
    assert forall|e: Entity| w.stable_ids.contains_key(e) implies exists|i: int|
        0 <= i < ids.len() && ids[i] == e by {
        assert(ids.to_set().contains(e));
    }
}

/// Creates deterministic persistence records without serializing runtime-only state.
pub fn snapshot_domain(world: &World) -> (r: Result<DomainSnapshot, PersistenceError>)
    ensures
        match r {
            Ok(snapshot) => first_stale(world@) is None && snapshot@ == domain_records(world@),
            Err(error) => first_stale(world@) is Some && error@
                == PersistenceErrorView::StaleRelationship(first_stale(world@)->0),
        },
{
    let ids = world.stable_ids.entities();
    if let Some(e) = find_stale(world, &ids) {
        return Err(PersistenceError::StaleRelationship(e));
    }
    proof {
        lemma_nothing_stale(world@, ids@);
    }
    let record = |e: Entity| -> (r: Option<(Vec<KeyPart>, PersistedDiscoverySource)>)
        ensures
            r.deep_view() == source_row(world@, e),
    {
        persist_source(world, e)
    };
    let discovery_sources = collect_records(&ids, record, Ghost(|e: Entity| source_row(world@, e)));
    let record = |e: Entity| -> (r: Option<(Vec<KeyPart>, PersistedModel)>)
        ensures
            r.deep_view() == model_row(world@, e),
    {
        persist_model(world, e)
    };
    let models = collect_records(&ids, record, Ghost(|e: Entity| model_row(world@, e)));
    let record = |e: Entity| -> (r: Option<(Vec<KeyPart>, PersistedAgent)>)
        requires
            stale_agent(world@, e) is None,
        ensures
            r.deep_view() == agent_row(world@, e),
    {
        persist_agent(world, e)
    };
    let agents = collect_records(&ids, record, Ghost(|e: Entity| agent_row(world@, e)));
    let record = |e: Entity| -> (r: Option<(Vec<KeyPart>, PersistedPolicy)>)
        requires
            stale_policy(world@, e) is None,
        ensures
            r.deep_view() == policy_row(world@, e),
    {
        persist_policy(world, e)
    };
    let policies = collect_records(&ids, record, Ghost(|e: Entity| policy_row(world@, e)));
    let record = |e: Entity| -> (r: Option<(Vec<KeyPart>, PersistedTool)>)
        requires
            stale_tool(world@, e) is None,
        ensures
            r.deep_view() == tool_row(world@, e),
    {
        persist_tool(world, e)
    };
    let tools = collect_records(&ids, record, Ghost(|e: Entity| tool_row(world@, e)));
    let record = |e: Entity| -> (r: Option<(Vec<KeyPart>, PersistedToolGrant)>)
        requires
            stale_tool_grant(world@, e) is None,
        ensures
            r.deep_view() == tool_grant_row(world@, e),
    {
        persist_tool_grant(world, e)
    };
    let tool_grants = collect_records(&ids, record, Ghost(|e: Entity| tool_grant_row(world@, e)));
    let record = |e: Entity| -> (r: Option<(Vec<KeyPart>, PersistedStore)>)
        ensures
            r.deep_view() == store_row(world@, e),
    {
        persist_store(world, e)
    };
    let stores = collect_records(&ids, record, Ghost(|e: Entity| store_row(world@, e)));
    let record = |e: Entity| -> (r: Option<(Vec<KeyPart>, PersistedStoreGrant)>)
        requires
            stale_store_grant(world@, e) is None,
        ensures
            r.deep_view() == store_grant_row(world@, e),
    {
        persist_store_grant(world, e)
    };
    let store_grants = collect_records(&ids, record, Ghost(|e: Entity| store_grant_row(world@, e)));
    Ok(
        DomainSnapshot {
            discovery_sources,
            models,
            agents,
            policies,
            tools,
            tool_grants,
            stores,
            store_grants,
        },
    )
}

} // verus!
