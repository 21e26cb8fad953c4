//! Restoration of configured entities from a snapshot.

use vstd::prelude::*;

use crate::column::{entities_of, Entity};
use crate::fold::{first_picked, lemma_fold_next};
use crate::identity::{StableId, TenantId};
use crate::persisted::{
    DomainSnapshot, DomainSnapshotView, PersistedAgent, PersistedAgentView,
    PersistedDiscoverySource, PersistedDiscoverySourceView, PersistedModel, PersistedModelView,
    PersistedPolicy, PersistedPolicyView, PersistedStore, PersistedStoreGrant,
    PersistedStoreGrantView, PersistedStoreView, PersistedTool, PersistedToolGrant,
    PersistedToolGrantView, PersistedToolView,
};
use crate::run::{
    DiscoverySource, DiscoverySourceView, DiscoveryState, DiscoveryStateView, PersistenceError,
    PersistenceErrorView,
};
use crate::text_map::TextMap;
use crate::world::{World, WorldView};

verus! {

/// The entity of each stable id; of entities with the same id the last one.
pub open spec fn id_index(w: WorldView) -> Map<Seq<char>, Entity> {
    indexed(w, entities_of(w.stable_ids.dom()))
}

/// The entity of each stable id among the given entities.
pub open spec fn indexed(w: WorldView, ids: Seq<Entity>) -> Map<Seq<char>, Entity> {
    ids.fold_left(
        Map::empty(),
        |m: Map<Seq<char>, Entity>, e: Entity| m.insert(w.stable_ids[e], e),
    )
}

/// The ids of all records, in the order in which they are compared.
pub open spec fn record_ids(s: DomainSnapshotView) -> Seq<Seq<char>> {
    Seq::new(s.discovery_sources.len(), |i: int| s.discovery_sources[i].id)
        + Seq::new(s.models.len(), |i: int| s.models[i].id)
        + Seq::new(s.agents.len(), |i: int| s.agents[i].id)
        + Seq::new(s.policies.len(), |i: int| s.policies[i].id)
        + Seq::new(s.tools.len(), |i: int| s.tools[i].id)
        + Seq::new(s.tool_grants.len(), |i: int| s.tool_grants[i].id)
        + Seq::new(s.stores.len(), |i: int| s.stores[i].id)
        + Seq::new(s.store_grants.len(), |i: int| s.store_grants[i].id)
}

/// Whether an id at `i` is taken by the world or by an earlier record.
pub open spec fn id_taken(index: Map<Seq<char>, Entity>, ids: Seq<Seq<char>>, i: int) -> bool {
    index.contains_key(ids[i]) || exists|j: int| 0 <= j < i && #[trigger] ids[j] == ids[i]
}

/// The first id at `from` or later that is taken.
pub open spec fn first_taken(
    index: Map<Seq<char>, Entity>,
    ids: Seq<Seq<char>>,
    from: int,
) -> Option<Seq<char>>
    decreases ids.len() - from,
{
    if from < 0 || from >= ids.len() {
        None
    } else if id_taken(index, ids, from) {
        Some(ids[from])
    } else {
        first_taken(index, ids, from + 1)
    }
}

/// Tenant of each stable id among the entities of one kind; of entities with the same id the
/// last one.
pub open spec fn kind_tenants(w: WorldView, kind: spec_fn(Entity) -> bool) -> Map<
    Seq<char>,
    Seq<char>,
> {
    tenants_among(w, kind, entities_of(w.stable_ids.dom()))
}

/// Tenant of each stable id among the given entities of one kind.
pub open spec fn tenants_among(
    w: WorldView,
    kind: spec_fn(Entity) -> bool,
    ids: Seq<Entity>,
) -> Map<Seq<char>, Seq<char>> {
    ids.fold_left(
        Map::empty(),
        |m: Map<Seq<char>, Seq<char>>, e: Entity|
            if w.tenants.contains_key(e) && kind(e) {
                m.insert(w.stable_ids[e], w.tenants[e])
            } else {
                m
            },
    )
}

/// The tenants with those of records added.
pub open spec fn with_tenants(
    tenants: Map<Seq<char>, Seq<char>>,
    records: Seq<(Seq<char>, Seq<char>)>,
) -> Map<Seq<char>, Seq<char>> {
    records.fold_left(
        tenants,
        |m: Map<Seq<char>, Seq<char>>, r: (Seq<char>, Seq<char>)| m.insert(r.0, r.1),
    )
}

/// Tenants of models, in the world or in the snapshot.
pub open spec fn model_tenants(w: WorldView, s: DomainSnapshotView) -> Map<Seq<char>, Seq<char>> {
    with_tenants(
        kind_tenants(w, |e: Entity| w.domain.models.contains_key(e)),
        Seq::new(s.models.len(), |i: int| (s.models[i].id, s.models[i].tenant)),
    )
}

/// Tenants of agents, in the world or in the snapshot.
pub open spec fn agent_tenants(w: WorldView, s: DomainSnapshotView) -> Map<Seq<char>, Seq<char>> {
    with_tenants(
        kind_tenants(w, |e: Entity| w.domain.agents.contains_key(e)),
        Seq::new(s.agents.len(), |i: int| (s.agents[i].id, s.agents[i].tenant)),
    )
}

/// Tenants of discovery sources, in the world or in the snapshot.
pub open spec fn source_tenants(w: WorldView, s: DomainSnapshotView) -> Map<Seq<char>, Seq<char>> {
    with_tenants(
        kind_tenants(w, |e: Entity| w.domain.sources.contains_key(e)),
        Seq::new(
            s.discovery_sources.len(),
            |i: int| (s.discovery_sources[i].id, s.discovery_sources[i].tenant),
        ),
    )
}

/// Tenants of tools, in the world or in the snapshot.
pub open spec fn tool_tenants(w: WorldView, s: DomainSnapshotView) -> Map<Seq<char>, Seq<char>> {
    with_tenants(
        kind_tenants(w, |e: Entity| w.domain.tools.contains_key(e)),
        Seq::new(s.tools.len(), |i: int| (s.tools[i].id, s.tools[i].tenant)),
    )
}

/// Tenants of stores, in the world or in the snapshot.
pub open spec fn store_tenants(w: WorldView, s: DomainSnapshotView) -> Map<Seq<char>, Seq<char>> {
    with_tenants(
        kind_tenants(w, |e: Entity| w.domain.stores.contains_key(e)),
        Seq::new(s.stores.len(), |i: int| (s.stores[i].id, s.stores[i].tenant)),
    )
}

/// What is wrong with a reference to an id from within a tenant, if something is.
pub open spec fn reference_fault(
    tenants: Map<Seq<char>, Seq<char>>,
    id: Seq<char>,
    tenant: Seq<char>,
) -> Option<PersistenceErrorView> {
    if !tenants.contains_key(id) {
        Some(PersistenceErrorView::MissingReference(id))
    } else if tenants[id] != tenant {
        Some(PersistenceErrorView::TenantMismatch(id))
    } else {
        None
    }
}

/// What is wrong with the provenance of a tool record, if something is.
pub open spec fn provenance_fault(
    sources: Map<Seq<char>, Seq<char>>,
    tool: PersistedToolView,
) -> Option<PersistenceErrorView> {
    match (tool.source_id, tool.discovery_key) {
        (None, None) => None,
        (Some(source), Some(_)) => reference_fault(sources, source, tool.tenant),
        (Some(source), None) => Some(PersistenceErrorView::MissingReference(source)),
        (None, Some(key)) => Some(PersistenceErrorView::MissingReference(key)),
    }
}

/// What is wrong with a grant record, if something is.
pub open spec fn grant_fault(
    tenant: Seq<char>,
    agent: Seq<char>,
    capability: Seq<char>,
    agents: Map<Seq<char>, Seq<char>>,
    capabilities: Map<Seq<char>, Seq<char>>,
) -> Option<PersistenceErrorView> {
    if !agents.contains_key(agent) {
        Some(PersistenceErrorView::MissingReference(agent))
    } else if !capabilities.contains_key(capability) {
        Some(PersistenceErrorView::MissingReference(capability))
    } else if agents[agent] != tenant || capabilities[capability] != tenant {
        Some(PersistenceErrorView::TenantMismatch(capability))
    } else {
        None
    }
}

/// What is wrong with an agent record, if something is.
pub open spec fn agent_fault(w: WorldView, s: DomainSnapshotView, r: PersistedAgentView) -> Option<
    PersistenceErrorView,
> {
    reference_fault(model_tenants(w, s), r.model_id, r.tenant)
}

/// What is wrong with a policy record, if something is.
pub open spec fn policy_fault(w: WorldView, s: DomainSnapshotView, r: PersistedPolicyView) -> Option<
    PersistenceErrorView,
> {
    reference_fault(agent_tenants(w, s), r.agent_id, r.tenant)
}

/// What is wrong with a tool grant record, if something is.
pub open spec fn tool_grant_fault(
    w: WorldView,
    s: DomainSnapshotView,
    r: PersistedToolGrantView,
) -> Option<PersistenceErrorView> {
    grant_fault(r.tenant, r.agent_id, r.tool_id, agent_tenants(w, s), tool_tenants(w, s))
}

/// What is wrong with a store grant record, if something is.
pub open spec fn store_grant_fault(
    w: WorldView,
    s: DomainSnapshotView,
    r: PersistedStoreGrantView,
) -> Option<PersistenceErrorView> {
    grant_fault(r.tenant, r.agent_id, r.store_id, agent_tenants(w, s), store_tenants(w, s))
}

/// Why a snapshot cannot be restored into a world, if it cannot: the first taken id, or else the
/// first faulty record of agents, policies, tools, tool grants and store grants.
pub open spec fn restore_fault(w: WorldView, s: DomainSnapshotView) -> Option<PersistenceErrorView> {
    if let Some(id) = first_taken(id_index(w), record_ids(s), 0) {
        Some(PersistenceErrorView::ConflictingStableId(id))
    } else if let Some(e) = first_picked(
        s.agents,
        |r: PersistedAgentView| agent_fault(w, s, r),
        0,
    ) {
        Some(e)
    } else if let Some(e) = first_picked(
        s.policies,
        |r: PersistedPolicyView| policy_fault(w, s, r),
        0,
    ) {
        Some(e)
    } else if let Some(e) = first_picked(
        s.tools,
        |r: PersistedToolView| provenance_fault(source_tenants(w, s), r),
        0,
    ) {
        Some(e)
    } else if let Some(e) = first_picked(
        s.tool_grants,
        |r: PersistedToolGrantView| tool_grant_fault(w, s, r),
        0,
    ) {
        Some(e)
    } else {
        first_picked(s.store_grants, |r: PersistedStoreGrantView| store_grant_fault(w, s, r), 0)
    }
}

/// A world in the course of a restoration, with the entity of each stable id.
#[verifier::ext_equal]
pub struct RestoreView {
    pub world: WorldView,
    pub mapped: Map<Seq<char>, Entity>,
}

/// The restoration once a discovery source was made.
pub open spec fn restore_source(r: RestoreView, record: PersistedDiscoverySourceView) -> RestoreView {
    RestoreView {
        world: r.world.with_source(
            record.id,
            record.tenant,
            DiscoverySourceView {
                kind: record.kind,
                generation: record.generation,
                state: DiscoveryStateView::Idle,
            },
        ),
        mapped: r.mapped.insert(record.id, r.world.fresh()),
    }
}

/// The restoration once a model was made.
pub open spec fn restore_model(r: RestoreView, record: PersistedModelView) -> RestoreView {
    RestoreView {
        world: r.world.with_model(record.id, record.tenant, record.capability),
        mapped: r.mapped.insert(record.id, r.world.fresh()),
    }
}

/// The restoration once a tool was made.
pub open spec fn restore_tool(r: RestoreView, record: PersistedToolView) -> RestoreView {
    RestoreView {
        world: match (record.source_id, record.discovery_key) {
            (Some(source), Some(key)) => r.world.with_discovered_tool(
                record.id,
                record.tenant,
                record.capability,
                r.mapped[source],
                key,
            ),
            _ => r.world.with_tool(record.id, record.tenant, record.capability),
        },
        mapped: r.mapped.insert(record.id, r.world.fresh()),
    }
}

/// The restoration once a store was made.
pub open spec fn restore_store(r: RestoreView, record: PersistedStoreView) -> RestoreView {
    RestoreView {
        world: r.world.with_store(record.id, record.tenant, record.capability),
        mapped: r.mapped.insert(record.id, r.world.fresh()),
    }
}

/// The restoration once an agent was made.
pub open spec fn restore_agent(r: RestoreView, record: PersistedAgentView) -> RestoreView {
    RestoreView {
        world: r.world.with_agent(
            record.id,
            record.tenant,
            record.agent,
            r.mapped[record.model_id],
        ).with_output_requirement(
            r.world.fresh(),
            record.output_requirement,
        ).with_retrieval_requirement(r.world.fresh(), record.retrieval_requirement),
        mapped: r.mapped.insert(record.id, r.world.fresh()),
    }
}

/// The restoration once a policy was made.
pub open spec fn restore_policy(r: RestoreView, record: PersistedPolicyView) -> RestoreView {
    RestoreView {
        world: r.world.with_policy(
            record.id,
            record.tenant,
            record.policy,
            r.mapped[record.agent_id],
        ),
        mapped: r.mapped.insert(record.id, r.world.fresh()),
    }
}

/// The restoration once a tool grant was made.
pub open spec fn restore_tool_grant(r: RestoreView, record: PersistedToolGrantView) -> RestoreView {
    RestoreView {
        world: r.world.with_tool_grant(
            record.id,
            record.tenant,
            record.grant,
            r.mapped[record.agent_id],
            r.mapped[record.tool_id],
        ),
        mapped: r.mapped.insert(record.id, r.world.fresh()),
    }
}

/// The restoration once a store grant was made.
pub open spec fn restore_store_grant(r: RestoreView, record: PersistedStoreGrantView) -> RestoreView {
    RestoreView {
        world: r.world.with_store_grant(
            record.id,
            record.tenant,
            record.grant,
            r.mapped[record.agent_id],
            r.mapped[record.store_id],
        ),
        mapped: r.mapped.insert(record.id, r.world.fresh()),
    }
}

/// The restoration of a whole snapshot: discovery sources, models, tools and stores, then agents,
/// policies and grants, which refer to them.
pub open spec fn restored(w: WorldView, s: DomainSnapshotView) -> RestoreView {
    let r = RestoreView { world: w, mapped: id_index(w) };
    let r = s.discovery_sources.fold_left(
        r,
        |r: RestoreView, record: PersistedDiscoverySourceView| restore_source(r, record),
    );
    let r = s.models.fold_left(
        r,
        |r: RestoreView, record: PersistedModelView| restore_model(r, record),
    );
    let r = s.tools.fold_left(
        r,
        |r: RestoreView, record: PersistedToolView| restore_tool(r, record),
    );
    let r = s.stores.fold_left(
        r,
        |r: RestoreView, record: PersistedStoreView| restore_store(r, record),
    );
    let r = s.agents.fold_left(
        r,
        |r: RestoreView, record: PersistedAgentView| restore_agent(r, record),
    );
    let r = s.policies.fold_left(
        r,
        |r: RestoreView, record: PersistedPolicyView| restore_policy(r, record),
    );
    let r = s.tool_grants.fold_left(
        r,
        |r: RestoreView, record: PersistedToolGrantView| restore_tool_grant(r, record),
    );
    let r = s.store_grants.fold_left(
        r,
        |r: RestoreView, record: PersistedStoreGrantView| restore_store_grant(r, record),
    );
    r
}

/// The entity that a restoration made for each record of a snapshot.
pub open spec fn restored_entities(w: WorldView, s: DomainSnapshotView) -> Map<Seq<char>, Entity> {
    restored(w, s).mapped.restrict(record_ids(s).to_set())
}

/// Stable ids mapped to newly reconstructed entities.
#[derive(Debug)]
pub struct RestoredEntities(pub TextMap<Entity>);

impl View for RestoredEntities {
    type V = Map<Seq<char>, Entity>;

    open spec fn view(&self) -> Map<Seq<char>, Entity> {
        self.0@
    }
}

impl RestoredEntities {
    /// The entity of a stable id.
    pub fn get(&self, id: &StableId) -> (r: Option<Entity>)
        ensures
            match r {
                Some(e) => self@.contains_key(id@) && self@[id@] == e,
                None => !self@.contains_key(id@),
            },
    {
        match self.0.get(id.key()) {
            Some(e) => Some(*e),
            None => None,
        }
    }
}

/// Rebuilds the entity of each stable id.
pub fn build_index(world: &World) -> (r: TextMap<Entity>)
    ensures
        r@ == id_index(world@),
{
    broadcast use crate::fold::group_fold;

    let ids = world.stable_ids.entities();
    let ghost step = |m: Map<Seq<char>, Entity>, e: Entity| m.insert(world@.stable_ids[e], e);
    let mut r: TextMap<Entity> = TextMap::new();
    let mut i: usize = 0;
    while i < ids.len()
        invariant
            i <= ids@.len(),
            forall|k: int| 0 <= k < ids@.len() ==> world@.stable_ids.contains_key(#[trigger] ids@[k]),
            step == (|m: Map<Seq<char>, Entity>, e: Entity| m.insert(world@.stable_ids[e], e)),
            r@ == ids@.take(i as int).fold_left(Map::empty(), step),
        decreases ids@.len() - i,
    {
        proof {
            lemma_fold_next(ids@, i as int, Map::empty(), step);
            assert(world@.stable_ids.contains_key(ids@[i as int]));
        }
        if let Some(id) = world.stable_ids.get(ids[i]) {
            r.insert(id.text(), ids[i]);
        }
        i = i + 1;
    }
    r
}

/// The part of a map whose keys are among the ids.
fn select_entities(mapped: &TextMap<Entity>, ids: &Vec<String>) -> (r: TextMap<Entity>)
    ensures
        r@ == mapped@.restrict(ids.deep_view().to_set()),
{
    let ghost views = ids.deep_view();
    let mut r: TextMap<Entity> = TextMap::new();
    let mut i: usize = 0;
    assert(r@ =~= mapped@.restrict(views.take(0).to_set()));
    while i < ids.len()
        invariant
            i <= ids@.len(),
            views == ids.deep_view(),
            r@ == mapped@.restrict(views.take(i as int).to_set()),
        decreases ids@.len() - i,
    {
        let ghost before = r@;
        assert(views[i as int] == ids@[i as int]@);
        if let Some(e) = mapped.get(&ids[i]) {
            r.insert(ids[i].clone(), *e);
        }
        proof {
            let now = views.take(i + 1);
            assert(now.drop_last() =~= views.take(i as int));
            assert forall|id: Seq<char>| now.to_set().contains(id) <==> views.take(
                i as int,
            ).to_set().contains(id) || id == views[i as int] by {
                if now.contains(id) && id != views[i as int] {
                    let k = choose|k: int| 0 <= k < now.len() && now[k] == id;
                    assert(views.take(i as int)[k] == id);
                }
                if views.take(i as int).contains(id) {
                    let k = choose|k: int| 0 <= k < i && views.take(i as int)[k] == id;
                    assert(now[k] == id);
                }
                assert(now[i as int] == views[i as int]);
            }
            assert(r@ =~= mapped@.restrict(now.to_set()));
        }
        i = i + 1;
    }
    assert(views.take(i as int) =~= views);
    r
}

fn find_taken(index: &TextMap<Entity>, ids: &Vec<String>) -> (r: Option<String>)
    ensures
        r.deep_view() == first_taken(index@, ids.deep_view(), 0),
{
    let ghost views = ids.deep_view();
    let mut i: usize = 0;
    while i < ids.len()
        invariant
            i <= ids@.len(),
            views == ids.deep_view(),
            first_taken(index@, views, 0) == first_taken(index@, views, i as int),
        decreases ids@.len() - i,
    {
        assert(views[i as int] == ids@[i as int]@);
        if index.contains(&ids[i]) {
            return Some(ids[i].clone());
        }
        let mut j: usize = 0;
        while j < i
            invariant
                j <= i < ids@.len(),
                views == ids.deep_view(),
                !index@.contains_key(views[i as int]),
                first_taken(index@, views, 0) == first_taken(index@, views, i as int),
                forall|k: int| 0 <= k < j ==> #[trigger] views[k] != views[i as int],
            decreases i - j,
        {
            assert(views[j as int] == ids@[j as int]@);
            assert(views[i as int] == ids@[i as int]@);
            if ids[j] == ids[i] {
                assert(id_taken(index@, views, i as int));
                return Some(ids[i].clone());
            }
            j = j + 1;
        }
        i = i + 1;
    }
    None
}

fn collect_kind<F: Fn(Entity) -> bool>(
    world: &World,
    has: F,
    Ghost(kind): Ghost<spec_fn(Entity) -> bool>,
) -> (r: TextMap<TenantId>)
    requires
        forall|e: Entity| #[trigger] has.requires((e,)),
        forall|e: Entity, r: bool| has.ensures((e,), r) ==> r == kind(e),
    ensures
        r@ == kind_tenants(world@, kind),
{
    broadcast use crate::fold::group_fold;

    let ids = world.stable_ids.entities();
    let ghost step = |m: Map<Seq<char>, Seq<char>>, e: Entity|
        if world@.tenants.contains_key(e) && kind(e) {
            m.insert(world@.stable_ids[e], world@.tenants[e])
        } else {
            m
        };
    let mut r: TextMap<TenantId> = TextMap::new();
    let mut i: usize = 0;
    while i < ids.len()
        invariant
            i <= ids@.len(),
            forall|e: Entity| #[trigger] has.requires((e,)),
            forall|e: Entity, r: bool| has.ensures((e,), r) ==> r == kind(e),
            forall|k: int| 0 <= k < ids@.len() ==> world@.stable_ids.contains_key(#[trigger] ids@[k]),
            step == (|m: Map<Seq<char>, Seq<char>>, e: Entity|
                if world@.tenants.contains_key(e) && kind(e) {
                    m.insert(world@.stable_ids[e], world@.tenants[e])
                } else {
                    m
                }),
            r@ == ids@.take(i as int).fold_left(Map::empty(), step),
        decreases ids@.len() - i,
    {
        proof {
            lemma_fold_next(ids@, i as int, Map::empty(), step);
            assert(world@.stable_ids.contains_key(ids@[i as int]));
        }
        let e = ids[i];
        let fits = has(e);
        if let Some(id) = world.stable_ids.get(e) {
            if let Some(tenant) = world.tenants.get(e) {
                if fits {
                    r.insert(id.text(), tenant.clone());
                }
            }
        }
        i = i + 1;
    }
    r
}

fn collect_model_tenants(world: &World, snapshot: &DomainSnapshot) -> (r: TextMap<TenantId>)
    ensures
        r@ == model_tenants(world@, snapshot@),
{
    broadcast use crate::fold::group_fold;

    let has = |e: Entity| -> (r: bool)
        ensures
            r == world@.domain.models.contains_key(e),
    {
        world.domain.models.contains(e)
    };
    let mut r = collect_kind(world, has, Ghost(|e: Entity| world@.domain.models.contains_key(e)));
    let ghost base = r@;
    let ghost pairs = Seq::new(
        snapshot@.models.len(),
        |i: int| (snapshot@.models[i].id, snapshot@.models[i].tenant),
    );
    let ghost step = |m: Map<Seq<char>, Seq<char>>, r: (Seq<char>, Seq<char>)| m.insert(r.0, r.1);
    let mut i: usize = 0;
    while i < snapshot.models.len()
        invariant
            i <= snapshot.models@.len(),
            pairs == Seq::new(
                snapshot@.models.len(),
                |i: int| (snapshot@.models[i].id, snapshot@.models[i].tenant),
            ),
            step == (|m: Map<Seq<char>, Seq<char>>, r: (Seq<char>, Seq<char>)| m.insert(r.0, r.1)),
            r@ == pairs.take(i as int).fold_left(base, step),
        decreases snapshot.models@.len() - i,
    {
        proof {
            lemma_fold_next(pairs, i as int, base, step);
            assert(snapshot@.models[i as int] == snapshot.models@[i as int]@);
        }
        r.insert(snapshot.models[i].id.text(), snapshot.models[i].tenant.clone());
        i = i + 1;
    }
    r
}

fn collect_agent_tenants(world: &World, snapshot: &DomainSnapshot) -> (r: TextMap<TenantId>)
    ensures
        r@ == agent_tenants(world@, snapshot@),
{
    broadcast use crate::fold::group_fold;

    let has = |e: Entity| -> (r: bool)
        ensures
            r == world@.domain.agents.contains_key(e),
    {
        world.domain.agents.contains(e)
    };
    let mut r = collect_kind(world, has, Ghost(|e: Entity| world@.domain.agents.contains_key(e)));
    let ghost base = r@;
    let ghost pairs = Seq::new(
        snapshot@.agents.len(),
        |i: int| (snapshot@.agents[i].id, snapshot@.agents[i].tenant),
    );
    let ghost step = |m: Map<Seq<char>, Seq<char>>, r: (Seq<char>, Seq<char>)| m.insert(r.0, r.1);
    let mut i: usize = 0;
    while i < snapshot.agents.len()
        invariant
            i <= snapshot.agents@.len(),
            pairs == Seq::new(
                snapshot@.agents.len(),
                |i: int| (snapshot@.agents[i].id, snapshot@.agents[i].tenant),
            ),
            step == (|m: Map<Seq<char>, Seq<char>>, r: (Seq<char>, Seq<char>)| m.insert(r.0, r.1)),
            r@ == pairs.take(i as int).fold_left(base, step),
        decreases snapshot.agents@.len() - i,
    {
        proof {
            lemma_fold_next(pairs, i as int, base, step);
            assert(snapshot@.agents[i as int] == snapshot.agents@[i as int]@);
        }
        r.insert(snapshot.agents[i].id.text(), snapshot.agents[i].tenant.clone());
        i = i + 1;
    }
    r
}

fn collect_source_tenants(world: &World, snapshot: &DomainSnapshot) -> (r: TextMap<TenantId>)
    ensures
        r@ == source_tenants(world@, snapshot@),
{
    broadcast use crate::fold::group_fold;

    let has = |e: Entity| -> (r: bool)
        ensures
            r == world@.domain.sources.contains_key(e),
    {
        world.domain.sources.contains(e)
    };
    let mut r = collect_kind(world, has, Ghost(|e: Entity| world@.domain.sources.contains_key(e)));
    let ghost base = r@;
    let ghost pairs = Seq::new(
        snapshot@.discovery_sources.len(),
        |i: int| (snapshot@.discovery_sources[i].id, snapshot@.discovery_sources[i].tenant),
    );
    let ghost step = |m: Map<Seq<char>, Seq<char>>, r: (Seq<char>, Seq<char>)| m.insert(r.0, r.1);
    let mut i: usize = 0;
    while i < snapshot.discovery_sources.len()
        invariant
            i <= snapshot.discovery_sources@.len(),
            pairs == Seq::new(
                snapshot@.discovery_sources.len(),
                |i: int| (snapshot@.discovery_sources[i].id, snapshot@.discovery_sources[i].tenant),
            ),
            step == (|m: Map<Seq<char>, Seq<char>>, r: (Seq<char>, Seq<char>)| m.insert(r.0, r.1)),
            r@ == pairs.take(i as int).fold_left(base, step),
        decreases snapshot.discovery_sources@.len() - i,
    {
        proof {
            lemma_fold_next(pairs, i as int, base, step);
            assert(snapshot@.discovery_sources[i as int] == snapshot.discovery_sources@[i as int]@);
        }
        r.insert(snapshot.discovery_sources[i].id.text(), snapshot.discovery_sources[i].tenant.clone());
        i = i + 1;
    }
    r
}

fn collect_tool_tenants(world: &World, snapshot: &DomainSnapshot) -> (r: TextMap<TenantId>)
    ensures
        r@ == tool_tenants(world@, snapshot@),
{
    broadcast use crate::fold::group_fold;

    let has = |e: Entity| -> (r: bool)
        ensures
            r == world@.domain.tools.contains_key(e),
    {
        world.domain.tools.contains(e)
    };
    let mut r = collect_kind(world, has, Ghost(|e: Entity| world@.domain.tools.contains_key(e)));
    let ghost base = r@;
    let ghost pairs = Seq::new(
        snapshot@.tools.len(),
        |i: int| (snapshot@.tools[i].id, snapshot@.tools[i].tenant),
    );
    let ghost step = |m: Map<Seq<char>, Seq<char>>, r: (Seq<char>, Seq<char>)| m.insert(r.0, r.1);
    let mut i: usize = 0;
    while i < snapshot.tools.len()
        invariant
            i <= snapshot.tools@.len(),
            pairs == Seq::new(
                snapshot@.tools.len(),
                |i: int| (snapshot@.tools[i].id, snapshot@.tools[i].tenant),
            ),
            step == (|m: Map<Seq<char>, Seq<char>>, r: (Seq<char>, Seq<char>)| m.insert(r.0, r.1)),
            r@ == pairs.take(i as int).fold_left(base, step),
        decreases snapshot.tools@.len() - i,
    {
        proof {
            lemma_fold_next(pairs, i as int, base, step);
            assert(snapshot@.tools[i as int] == snapshot.tools@[i as int]@);
        }
        r.insert(snapshot.tools[i].id.text(), snapshot.tools[i].tenant.clone());
        i = i + 1;
    }
    r
}

fn collect_store_tenants(world: &World, snapshot: &DomainSnapshot) -> (r: TextMap<TenantId>)
    ensures
        r@ == store_tenants(world@, snapshot@),
{
    broadcast use crate::fold::group_fold;

    let has = |e: Entity| -> (r: bool)
        ensures
            r == world@.domain.stores.contains_key(e),
    {
        world.domain.stores.contains(e)
    };
    let mut r = collect_kind(world, has, Ghost(|e: Entity| world@.domain.stores.contains_key(e)));
    let ghost base = r@;
    let ghost pairs = Seq::new(
        snapshot@.stores.len(),
        |i: int| (snapshot@.stores[i].id, snapshot@.stores[i].tenant),
    );
    let ghost step = |m: Map<Seq<char>, Seq<char>>, r: (Seq<char>, Seq<char>)| m.insert(r.0, r.1);
    let mut i: usize = 0;
    while i < snapshot.stores.len()
        invariant
            i <= snapshot.stores@.len(),
            pairs == Seq::new(
                snapshot@.stores.len(),
                |i: int| (snapshot@.stores[i].id, snapshot@.stores[i].tenant),
            ),
            step == (|m: Map<Seq<char>, Seq<char>>, r: (Seq<char>, Seq<char>)| m.insert(r.0, r.1)),
            r@ == pairs.take(i as int).fold_left(base, step),
        decreases snapshot.stores@.len() - i,
    {
        proof {
            lemma_fold_next(pairs, i as int, base, step);
            assert(snapshot@.stores[i as int] == snapshot.stores@[i as int]@);
        }
        r.insert(snapshot.stores[i].id.text(), snapshot.stores[i].tenant.clone());
        i = i + 1;
    }
    r
}

fn check_reference(tenants: &TextMap<TenantId>, id: &StableId, tenant: &TenantId) -> (r: Option<
    PersistenceError,
>)
    ensures
        r.deep_view() == reference_fault(tenants@, id@, tenant@),
{
    match tenants.get(id.key()) {
        Some(found) => if found.same(tenant) {
            None
        } else {
            Some(PersistenceError::TenantMismatch(id.text()))
        },
        None => Some(PersistenceError::MissingReference(id.text())),
    }
}

fn check_provenance(sources: &TextMap<TenantId>, tool: &PersistedTool) -> (r: Option<
    PersistenceError,
>)
    ensures
        r.deep_view() == provenance_fault(sources@, tool@),
{
    match (&tool.source_id, &tool.discovery_key) {
        (None, None) => None,
        (Some(source), Some(_)) => check_reference(sources, source, &tool.tenant),
        (Some(source), None) => Some(PersistenceError::MissingReference(source.text())),
        (None, Some(key)) => Some(PersistenceError::MissingReference(key.clone())),
    }
}

fn validate_persisted_grant(
    tenant: &TenantId,
    agent_id: &StableId,
    capability_id: &StableId,
    agents: &TextMap<TenantId>,
    capabilities: &TextMap<TenantId>,
) -> (r: Option<PersistenceError>)
    ensures
        r.deep_view() == grant_fault(tenant@, agent_id@, capability_id@, agents@, capabilities@),
{
    match agents.get(agent_id.key()) {
        None => Some(PersistenceError::MissingReference(agent_id.text())),
        Some(agent_tenant) => match capabilities.get(capability_id.key()) {
            None => Some(PersistenceError::MissingReference(capability_id.text())),
            Some(capability_tenant) => if !agent_tenant.same(tenant) || !capability_tenant.same(
                tenant,
            ) {
                Some(PersistenceError::TenantMismatch(capability_id.text()))
            } else {
                None
            },
        },
    }
}

fn find_fault<T: DeepView, F: Fn(&T) -> Option<PersistenceError>>(
    records: &Vec<T>,
    check: F,
    Ghost(fault): Ghost<spec_fn(T::V) -> Option<PersistenceErrorView>>,
) -> (r: Option<PersistenceError>)
    requires
        forall|x: &T| #[trigger] check.requires((x,)),
        forall|x: &T, r: Option<PersistenceError>|
            check.ensures((x,), r) ==> r.deep_view() == fault(x.deep_view()),
    ensures
        r.deep_view() == first_picked(records.deep_view(), fault, 0),
{
    let ghost views = records.deep_view();
    let mut i: usize = 0;
    while i < records.len()
        invariant
            i <= records@.len(),
            views == records.deep_view(),
            forall|x: &T| #[trigger] check.requires((x,)),
            forall|x: &T, r: Option<PersistenceError>|
                check.ensures((x,), r) ==> r.deep_view() == fault(x.deep_view()),
            first_picked(views, fault, 0) == first_picked(views, fault, i as int),
        decreases records@.len() - i,
    {
        assert(views[i as int] == records@[i as int].deep_view());
        if let Some(error) = check(&records[i]) {
            return Some(error);
        }
        i = i + 1;
    }
    None
}

fn collect_ids(snapshot: &DomainSnapshot) -> (r: Vec<String>)
    ensures
        r.deep_view() == record_ids(snapshot@),
{
    let mut r: Vec<String> = Vec::new();
    let ghost mut done: Seq<Seq<char>> = Seq::empty();
    assert(r.deep_view() =~= done);
    let mut i: usize = 0;
    let ghost part = Seq::new(snapshot@.discovery_sources.len(), |i: int| snapshot@.discovery_sources[i].id);
    assert(done + part.take(0) =~= done);
    while i < snapshot.discovery_sources.len()
        invariant
            i <= snapshot.discovery_sources@.len(),
            part == Seq::new(snapshot@.discovery_sources.len(), |i: int| snapshot@.discovery_sources[i].id),
            r.deep_view() == done + part.take(i as int),
        decreases snapshot.discovery_sources@.len() - i,
    {
        let ghost before = r.deep_view();
        r.push(snapshot.discovery_sources[i].id.text());
        proof {
            assert(snapshot@.discovery_sources[i as int] == snapshot.discovery_sources@[i as int]@);
            assert(r.deep_view() =~= before.push(part[i as int]));
            assert(r.deep_view() =~= done + part.take(i + 1));
        }
        i = i + 1;
    }
    proof {
        assert(part.take(i as int) =~= part);
        done = done + part;
    }
    let mut i: usize = 0;
    let ghost part = Seq::new(snapshot@.models.len(), |i: int| snapshot@.models[i].id);
    assert(done + part.take(0) =~= done);
    while i < snapshot.models.len()
        invariant
            i <= snapshot.models@.len(),
            part == Seq::new(snapshot@.models.len(), |i: int| snapshot@.models[i].id),
            r.deep_view() == done + part.take(i as int),
        decreases snapshot.models@.len() - i,
    {
        let ghost before = r.deep_view();
        r.push(snapshot.models[i].id.text());
        proof {
            assert(snapshot@.models[i as int] == snapshot.models@[i as int]@);
            assert(r.deep_view() =~= before.push(part[i as int]));
            assert(r.deep_view() =~= done + part.take(i + 1));
        }
        i = i + 1;
    }
    proof {
        assert(part.take(i as int) =~= part);
        done = done + part;
    }
    let mut i: usize = 0;
    let ghost part = Seq::new(snapshot@.agents.len(), |i: int| snapshot@.agents[i].id);
    assert(done + part.take(0) =~= done);
    while i < snapshot.agents.len()
        invariant
            i <= snapshot.agents@.len(),
            part == Seq::new(snapshot@.agents.len(), |i: int| snapshot@.agents[i].id),
            r.deep_view() == done + part.take(i as int),
        decreases snapshot.agents@.len() - i,
    {
        let ghost before = r.deep_view();
        r.push(snapshot.agents[i].id.text());
        proof {
            assert(snapshot@.agents[i as int] == snapshot.agents@[i as int]@);
            assert(r.deep_view() =~= before.push(part[i as int]));
            assert(r.deep_view() =~= done + part.take(i + 1));
        }
        i = i + 1;
    }
    proof {
        assert(part.take(i as int) =~= part);
        done = done + part;
    }
    let mut i: usize = 0;
    let ghost part = Seq::new(snapshot@.policies.len(), |i: int| snapshot@.policies[i].id);
    assert(done + part.take(0) =~= done);
    while i < snapshot.policies.len()
        invariant
            i <= snapshot.policies@.len(),
            part == Seq::new(snapshot@.policies.len(), |i: int| snapshot@.policies[i].id),
            r.deep_view() == done + part.take(i as int),
        decreases snapshot.policies@.len() - i,
    {
        let ghost before = r.deep_view();
        r.push(snapshot.policies[i].id.text());
        proof {
            assert(snapshot@.policies[i as int] == snapshot.policies@[i as int]@);
            assert(r.deep_view() =~= before.push(part[i as int]));
            assert(r.deep_view() =~= done + part.take(i + 1));
        }
        i = i + 1;
    }
    proof {
        assert(part.take(i as int) =~= part);
        done = done + part;
    }
    let mut i: usize = 0;
    let ghost part = Seq::new(snapshot@.tools.len(), |i: int| snapshot@.tools[i].id);
    assert(done + part.take(0) =~= done);
    while i < snapshot.tools.len()
        invariant
            i <= snapshot.tools@.len(),
            part == Seq::new(snapshot@.tools.len(), |i: int| snapshot@.tools[i].id),
            r.deep_view() == done + part.take(i as int),
        decreases snapshot.tools@.len() - i,
    {
        let ghost before = r.deep_view();
        r.push(snapshot.tools[i].id.text());
        proof {
            assert(snapshot@.tools[i as int] == snapshot.tools@[i as int]@);
            assert(r.deep_view() =~= before.push(part[i as int]));
            assert(r.deep_view() =~= done + part.take(i + 1));
        }
        i = i + 1;
    }
    proof {
        assert(part.take(i as int) =~= part);
        done = done + part;
    }
    let mut i: usize = 0;
    let ghost part = Seq::new(snapshot@.tool_grants.len(), |i: int| snapshot@.tool_grants[i].id);
    assert(done + part.take(0) =~= done);
    while i < snapshot.tool_grants.len()
        invariant
            i <= snapshot.tool_grants@.len(),
            part == Seq::new(snapshot@.tool_grants.len(), |i: int| snapshot@.tool_grants[i].id),
            r.deep_view() == done + part.take(i as int),
        decreases snapshot.tool_grants@.len() - i,
    {
        let ghost before = r.deep_view();
        r.push(snapshot.tool_grants[i].id.text());
        proof {
            assert(snapshot@.tool_grants[i as int] == snapshot.tool_grants@[i as int]@);
            assert(r.deep_view() =~= before.push(part[i as int]));
            assert(r.deep_view() =~= done + part.take(i + 1));
        }
        i = i + 1;
    }
    proof {
        assert(part.take(i as int) =~= part);
        done = done + part;
    }
    let mut i: usize = 0;
    let ghost part = Seq::new(snapshot@.stores.len(), |i: int| snapshot@.stores[i].id);
    assert(done + part.take(0) =~= done);
    while i < snapshot.stores.len()
        invariant
            i <= snapshot.stores@.len(),
            part == Seq::new(snapshot@.stores.len(), |i: int| snapshot@.stores[i].id),
            r.deep_view() == done + part.take(i as int),
        decreases snapshot.stores@.len() - i,
    {
        let ghost before = r.deep_view();
        r.push(snapshot.stores[i].id.text());
        proof {
            assert(snapshot@.stores[i as int] == snapshot.stores@[i as int]@);
            assert(r.deep_view() =~= before.push(part[i as int]));
            assert(r.deep_view() =~= done + part.take(i + 1));
        }
        i = i + 1;
    }
    proof {
        assert(part.take(i as int) =~= part);
        done = done + part;
    }
    let mut i: usize = 0;
    let ghost part = Seq::new(snapshot@.store_grants.len(), |i: int| snapshot@.store_grants[i].id);
    assert(done + part.take(0) =~= done);
    while i < snapshot.store_grants.len()
        invariant
            i <= snapshot.store_grants@.len(),
            part == Seq::new(snapshot@.store_grants.len(), |i: int| snapshot@.store_grants[i].id),
            r.deep_view() == done + part.take(i as int),
        decreases snapshot.store_grants@.len() - i,
    {
        let ghost before = r.deep_view();
        r.push(snapshot.store_grants[i].id.text());
        proof {
            assert(snapshot@.store_grants[i as int] == snapshot.store_grants@[i as int]@);
            assert(r.deep_view() =~= before.push(part[i as int]));
            assert(r.deep_view() =~= done + part.take(i + 1));
        }
        i = i + 1;
    }
    proof {
        assert(part.take(i as int) =~= part);
        done = done + part;
    }
    assert(done =~= record_ids(snapshot@));
    r
}

/// Decides why a snapshot cannot be restored.
fn find_restore_fault(world: &World, index: &TextMap<Entity>, snapshot: &DomainSnapshot) -> (r:
    Option<PersistenceError>)
    requires
        index@ == id_index(world@),
    ensures
        r.deep_view() == restore_fault(world@, snapshot@),
{
    if let Some(id) = find_taken(index, &collect_ids(snapshot)) {
        return Some(PersistenceError::ConflictingStableId(id));
    }
    let models = collect_model_tenants(world, snapshot);
    let agents = collect_agent_tenants(world, snapshot);
    let sources = collect_source_tenants(world, snapshot);
    let tools = collect_tool_tenants(world, snapshot);
    let stores = collect_store_tenants(world, snapshot);
    let check = |record: &PersistedAgent| -> (r: Option<PersistenceError>)
        ensures
            r.deep_view() == agent_fault(world@, snapshot@, record@),
    {
        check_reference(&models, &record.model_id, &record.tenant)
    };
    let fault = find_fault(
        &snapshot.agents,
        check,
        Ghost(|r: PersistedAgentView| agent_fault(world@, snapshot@, r)),
    );
    if fault.is_some() {
        return fault;
    }
    let check = |record: &PersistedPolicy| -> (r: Option<PersistenceError>)
        ensures
            r.deep_view() == policy_fault(world@, snapshot@, record@),
    {
        check_reference(&agents, &record.agent_id, &record.tenant)
    };
    let fault = find_fault(
        &snapshot.policies,
        check,
        Ghost(|r: PersistedPolicyView| policy_fault(world@, snapshot@, r)),
    );
    if fault.is_some() {
        return fault;
    }
    let check = |record: &PersistedTool| -> (r: Option<PersistenceError>)
        ensures
            r.deep_view() == provenance_fault(source_tenants(world@, snapshot@), record@),
    {
        check_provenance(&sources, record)
    };
    let fault = find_fault(
        &snapshot.tools,
        check,
        Ghost(|r: PersistedToolView| provenance_fault(source_tenants(world@, snapshot@), r)),
    );
    if fault.is_some() {
        return fault;
    }
    let check = |record: &PersistedToolGrant| -> (r: Option<PersistenceError>)
        ensures
            r.deep_view() == tool_grant_fault(world@, snapshot@, record@),
    {
        validate_persisted_grant(
            &record.tenant,
            &record.agent_id,
            &record.tool_id,
            &agents,
            &tools,
        )
    };
    let fault = find_fault(
        &snapshot.tool_grants,
        check,
        Ghost(|r: PersistedToolGrantView| tool_grant_fault(world@, snapshot@, r)),
    );
    if fault.is_some() {
        return fault;
    }
    let check = |record: &PersistedStoreGrant| -> (r: Option<PersistenceError>)
        ensures
            r.deep_view() == store_grant_fault(world@, snapshot@, record@),
    {
        validate_persisted_grant(
            &record.tenant,
            &record.agent_id,
            &record.store_id,
            &agents,
            &stores,
        )
    };
    find_fault(
        &snapshot.store_grants,
        check,
        Ghost(|r: PersistedStoreGrantView| store_grant_fault(world@, snapshot@, r)),
    )
}

fn spawn_discovery_sources(world: &mut World, mapped: &mut TextMap<Entity>, records: &Vec<PersistedDiscoverySource>)
    ensures
        (RestoreView { world: final(world)@, mapped: final(mapped)@ })
            == records.deep_view().fold_left(
            (RestoreView { world: old(world)@, mapped: old(mapped)@ }),
            |r: RestoreView, record: PersistedDiscoverySourceView| restore_source(r, record),
        ),
        forall|id: Seq<char>|
            #[trigger] old(mapped)@.contains_key(id) ==> final(mapped)@.contains_key(id),
        forall|i: int|
            0 <= i < records@.len() ==> final(mapped)@.contains_key((#[trigger] records@[i])@.id),
{
    broadcast use crate::fold::group_fold;

    let ghost known = mapped@;
    let ghost start = RestoreView { world: world@, mapped: known };
    let ghost step = |r: RestoreView, record: PersistedDiscoverySourceView| restore_source(r, record);
    let ghost views = records.deep_view();
    let mut i: usize = 0;
    while i < records.len()
        invariant
            i <= records@.len(),
            views == records.deep_view(),
            step == (|r: RestoreView, record: PersistedDiscoverySourceView| restore_source(r, record)),
            (RestoreView { world: world@, mapped: mapped@ }) == views.take(i as int).fold_left(
                start,
                step,
            ),
            forall|id: Seq<char>|
                #[trigger] known.contains_key(id) ==> mapped@.contains_key(id),
            forall|k: int| 0 <= k < i ==> mapped@.contains_key((#[trigger] records@[k])@.id),
        decreases records@.len() - i,
    {
        let record = &records[i];
        proof {
            lemma_fold_next(views, i as int, start, step);
            assert(views[i as int] == record@);
        }
        let entity = world.spawn_source(
            record.id.clone(),
            record.tenant.clone(),
            DiscoverySource {
                kind: record.kind.clone(),
                generation: record.generation,
                state: DiscoveryState::Idle,
            },
        );
        mapped.insert(record.id.text(), entity);
        i = i + 1;
    }
}

fn spawn_models(world: &mut World, mapped: &mut TextMap<Entity>, records: &Vec<PersistedModel>)
    ensures
        (RestoreView { world: final(world)@, mapped: final(mapped)@ })
            == records.deep_view().fold_left(
            (RestoreView { world: old(world)@, mapped: old(mapped)@ }),
            |r: RestoreView, record: PersistedModelView| restore_model(r, record),
        ),
        forall|id: Seq<char>|
            #[trigger] old(mapped)@.contains_key(id) ==> final(mapped)@.contains_key(id),
        forall|i: int|
            0 <= i < records@.len() ==> final(mapped)@.contains_key((#[trigger] records@[i])@.id),
{
    broadcast use crate::fold::group_fold;

    let ghost known = mapped@;
    let ghost start = RestoreView { world: world@, mapped: known };
    let ghost step = |r: RestoreView, record: PersistedModelView| restore_model(r, record);
    let ghost views = records.deep_view();
    let mut i: usize = 0;
    while i < records.len()
        invariant
            i <= records@.len(),
            views == records.deep_view(),
            step == (|r: RestoreView, record: PersistedModelView| restore_model(r, record)),
            (RestoreView { world: world@, mapped: mapped@ }) == views.take(i as int).fold_left(
                start,
                step,
            ),
            forall|id: Seq<char>|
                #[trigger] known.contains_key(id) ==> mapped@.contains_key(id),
            forall|k: int| 0 <= k < i ==> mapped@.contains_key((#[trigger] records@[k])@.id),
        decreases records@.len() - i,
    {
        let record = &records[i];
        proof {
            lemma_fold_next(views, i as int, start, step);
            assert(views[i as int] == record@);
        }
        let entity = world.spawn_model(record.id.clone(), record.tenant.clone(), record.capability.clone());
        mapped.insert(record.id.text(), entity);
        i = i + 1;
    }
}

fn spawn_tools(world: &mut World, mapped: &mut TextMap<Entity>, records: &Vec<PersistedTool>)
    requires
        forall|i: int|
            #![trigger records@[i]]
            0 <= i < records@.len() ==> records@[i]@.source_id is Some ==> old(mapped)@.contains_key(records@[i]@.source_id->0),
    ensures
        (RestoreView { world: final(world)@, mapped: final(mapped)@ })
            == records.deep_view().fold_left(
            (RestoreView { world: old(world)@, mapped: old(mapped)@ }),
            |r: RestoreView, record: PersistedToolView| restore_tool(r, record),
        ),
        forall|id: Seq<char>|
            #[trigger] old(mapped)@.contains_key(id) ==> final(mapped)@.contains_key(id),
        forall|i: int|
            0 <= i < records@.len() ==> final(mapped)@.contains_key((#[trigger] records@[i])@.id),
{
    broadcast use crate::fold::group_fold;

    let ghost known = mapped@;
    let ghost start = RestoreView { world: world@, mapped: known };
    let ghost step = |r: RestoreView, record: PersistedToolView| restore_tool(r, record);
    let ghost views = records.deep_view();
    let mut i: usize = 0;
    while i < records.len()
        invariant
            i <= records@.len(),
            views == records.deep_view(),
            step == (|r: RestoreView, record: PersistedToolView| restore_tool(r, record)),
            (RestoreView { world: world@, mapped: mapped@ }) == views.take(i as int).fold_left(
                start,
                step,
            ),
            forall|k: int|
                #![trigger records@[k]]
                0 <= k < records@.len() ==> records@[k]@.source_id is Some ==> mapped@.contains_key(records@[k]@.source_id->0),
            forall|id: Seq<char>|
                #[trigger] known.contains_key(id) ==> mapped@.contains_key(id),
            forall|k: int| 0 <= k < i ==> mapped@.contains_key((#[trigger] records@[k])@.id),
        decreases records@.len() - i,
    {
        let record = &records[i];
        proof {
            lemma_fold_next(views, i as int, start, step);
            assert(views[i as int] == record@);
        }
        let entity = match (&record.source_id, &record.discovery_key) {
            (Some(source_id), Some(key)) => {
                let source = mapped_reference(mapped, source_id);
                world.spawn_discovered_tool(
                    record.id.clone(),
                    record.tenant.clone(),
                    record.capability.clone(),
                    source,
                    key.clone(),
                )
            },
            _ => world.spawn_tool(
                record.id.clone(),
                record.tenant.clone(),
                record.capability.clone(),
            ),
        };
        mapped.insert(record.id.text(), entity);
        i = i + 1;
    }
}

fn spawn_stores(world: &mut World, mapped: &mut TextMap<Entity>, records: &Vec<PersistedStore>)
    ensures
        (RestoreView { world: final(world)@, mapped: final(mapped)@ })
            == records.deep_view().fold_left(
            (RestoreView { world: old(world)@, mapped: old(mapped)@ }),
            |r: RestoreView, record: PersistedStoreView| restore_store(r, record),
        ),
        forall|id: Seq<char>|
            #[trigger] old(mapped)@.contains_key(id) ==> final(mapped)@.contains_key(id),
        forall|i: int|
            0 <= i < records@.len() ==> final(mapped)@.contains_key((#[trigger] records@[i])@.id),
{
    broadcast use crate::fold::group_fold;

    let ghost known = mapped@;
    let ghost start = RestoreView { world: world@, mapped: known };
    let ghost step = |r: RestoreView, record: PersistedStoreView| restore_store(r, record);
    let ghost views = records.deep_view();
    let mut i: usize = 0;
    while i < records.len()
        invariant
            i <= records@.len(),
            views == records.deep_view(),
            step == (|r: RestoreView, record: PersistedStoreView| restore_store(r, record)),
            (RestoreView { world: world@, mapped: mapped@ }) == views.take(i as int).fold_left(
                start,
                step,
            ),
            forall|id: Seq<char>|
                #[trigger] known.contains_key(id) ==> mapped@.contains_key(id),
            forall|k: int| 0 <= k < i ==> mapped@.contains_key((#[trigger] records@[k])@.id),
        decreases records@.len() - i,
    {
        let record = &records[i];
        proof {
            lemma_fold_next(views, i as int, start, step);
            assert(views[i as int] == record@);
        }
        let entity = world.spawn_store(record.id.clone(), record.tenant.clone(), record.capability.clone());
        mapped.insert(record.id.text(), entity);
        i = i + 1;
    }
}

fn spawn_agents(world: &mut World, mapped: &mut TextMap<Entity>, records: &Vec<PersistedAgent>)
    requires
        forall|i: int|
            #![trigger records@[i]]
            0 <= i < records@.len() ==> old(mapped)@.contains_key(records@[i]@.model_id),
    ensures
        (RestoreView { world: final(world)@, mapped: final(mapped)@ })
            == records.deep_view().fold_left(
            (RestoreView { world: old(world)@, mapped: old(mapped)@ }),
            |r: RestoreView, record: PersistedAgentView| restore_agent(r, record),
        ),
        forall|id: Seq<char>|
            #[trigger] old(mapped)@.contains_key(id) ==> final(mapped)@.contains_key(id),
        forall|i: int|
            0 <= i < records@.len() ==> final(mapped)@.contains_key((#[trigger] records@[i])@.id),
{
    broadcast use crate::fold::group_fold;

    let ghost known = mapped@;
    let ghost start = RestoreView { world: world@, mapped: known };
    let ghost step = |r: RestoreView, record: PersistedAgentView| restore_agent(r, record);
    let ghost views = records.deep_view();
    let mut i: usize = 0;
    while i < records.len()
        invariant
            i <= records@.len(),
            views == records.deep_view(),
            step == (|r: RestoreView, record: PersistedAgentView| restore_agent(r, record)),
            (RestoreView { world: world@, mapped: mapped@ }) == views.take(i as int).fold_left(
                start,
                step,
            ),
            forall|k: int|
                #![trigger records@[k]]
                0 <= k < records@.len() ==> mapped@.contains_key(records@[k]@.model_id),
            forall|id: Seq<char>|
                #[trigger] known.contains_key(id) ==> mapped@.contains_key(id),
            forall|k: int| 0 <= k < i ==> mapped@.contains_key((#[trigger] records@[k])@.id),
        decreases records@.len() - i,
    {
        let record = &records[i];
        proof {
            lemma_fold_next(views, i as int, start, step);
            assert(views[i as int] == record@);
        }
        let model = mapped_reference(mapped, &record.model_id);
        let entity = world.spawn_agent(
            record.id.clone(),
            record.tenant.clone(),
            record.agent.clone(),
            model,
        );
        let output_requirement = match &record.output_requirement {
            Some(requirement) => Some(requirement.clone()),
            None => None,
        };
        world.require_output(entity, output_requirement);
        world.require_retrieval(entity, record.retrieval_requirement);
        mapped.insert(record.id.text(), entity);
        i = i + 1;
    }
}

fn spawn_policies(world: &mut World, mapped: &mut TextMap<Entity>, records: &Vec<PersistedPolicy>)
    requires
        forall|i: int|
            #![trigger records@[i]]
            0 <= i < records@.len() ==> old(mapped)@.contains_key(records@[i]@.agent_id),
    ensures
        (RestoreView { world: final(world)@, mapped: final(mapped)@ })
            == records.deep_view().fold_left(
            (RestoreView { world: old(world)@, mapped: old(mapped)@ }),
            |r: RestoreView, record: PersistedPolicyView| restore_policy(r, record),
        ),
        forall|id: Seq<char>|
            #[trigger] old(mapped)@.contains_key(id) ==> final(mapped)@.contains_key(id),
        forall|i: int|
            0 <= i < records@.len() ==> final(mapped)@.contains_key((#[trigger] records@[i])@.id),
{
    broadcast use crate::fold::group_fold;

    let ghost known = mapped@;
    let ghost start = RestoreView { world: world@, mapped: known };
    let ghost step = |r: RestoreView, record: PersistedPolicyView| restore_policy(r, record);
    let ghost views = records.deep_view();
    let mut i: usize = 0;
    while i < records.len()
        invariant
            i <= records@.len(),
            views == records.deep_view(),
            step == (|r: RestoreView, record: PersistedPolicyView| restore_policy(r, record)),
            (RestoreView { world: world@, mapped: mapped@ }) == views.take(i as int).fold_left(
                start,
                step,
            ),
            forall|k: int|
                #![trigger records@[k]]
                0 <= k < records@.len() ==> mapped@.contains_key(records@[k]@.agent_id),
            forall|id: Seq<char>|
                #[trigger] known.contains_key(id) ==> mapped@.contains_key(id),
            forall|k: int| 0 <= k < i ==> mapped@.contains_key((#[trigger] records@[k])@.id),
        decreases records@.len() - i,
    {
        let record = &records[i];
        proof {
            lemma_fold_next(views, i as int, start, step);
            assert(views[i as int] == record@);
        }
        let agent_id = mapped_reference(mapped, &record.agent_id);
        let entity = world.spawn_policy(
            record.id.clone(),
            record.tenant.clone(),
            record.policy.clone(),
            agent_id,
        );
        mapped.insert(record.id.text(), entity);
        i = i + 1;
    }
}

fn spawn_tool_grants(world: &mut World, mapped: &mut TextMap<Entity>, records: &Vec<PersistedToolGrant>)
    requires
        forall|i: int|
            #![trigger records@[i]]
            0 <= i < records@.len() ==> old(mapped)@.contains_key(records@[i]@.agent_id) && old(mapped)@.contains_key(records@[i]@.tool_id),
    ensures
        (RestoreView { world: final(world)@, mapped: final(mapped)@ })
            == records.deep_view().fold_left(
            (RestoreView { world: old(world)@, mapped: old(mapped)@ }),
            |r: RestoreView, record: PersistedToolGrantView| restore_tool_grant(r, record),
        ),
        forall|id: Seq<char>|
            #[trigger] old(mapped)@.contains_key(id) ==> final(mapped)@.contains_key(id),
        forall|i: int|
            0 <= i < records@.len() ==> final(mapped)@.contains_key((#[trigger] records@[i])@.id),
{
    broadcast use crate::fold::group_fold;

    let ghost known = mapped@;
    let ghost start = RestoreView { world: world@, mapped: known };
    let ghost step = |r: RestoreView, record: PersistedToolGrantView| restore_tool_grant(r, record);
    let ghost views = records.deep_view();
    let mut i: usize = 0;
    while i < records.len()
        invariant
            i <= records@.len(),
            views == records.deep_view(),
            step == (|r: RestoreView, record: PersistedToolGrantView| restore_tool_grant(r, record)),
            (RestoreView { world: world@, mapped: mapped@ }) == views.take(i as int).fold_left(
                start,
                step,
            ),
            forall|k: int|
                #![trigger records@[k]]
                0 <= k < records@.len() ==> mapped@.contains_key(records@[k]@.agent_id) && mapped@.contains_key(records@[k]@.tool_id),
            forall|id: Seq<char>|
                #[trigger] known.contains_key(id) ==> mapped@.contains_key(id),
            forall|k: int| 0 <= k < i ==> mapped@.contains_key((#[trigger] records@[k])@.id),
        decreases records@.len() - i,
    {
        let record = &records[i];
        proof {
            lemma_fold_next(views, i as int, start, step);
            assert(views[i as int] == record@);
        }
        let agent_id = mapped_reference(mapped, &record.agent_id);
        let tool_id = mapped_reference(mapped, &record.tool_id);
        let entity = world.spawn_tool_grant(
            record.id.clone(),
            record.tenant.clone(),
            record.grant,
            agent_id,
            tool_id,
        );
        mapped.insert(record.id.text(), entity);
        i = i + 1;
    }
}

fn spawn_store_grants(world: &mut World, mapped: &mut TextMap<Entity>, records: &Vec<PersistedStoreGrant>)
    requires
        forall|i: int|
            #![trigger records@[i]]
            0 <= i < records@.len() ==> old(mapped)@.contains_key(records@[i]@.agent_id) && old(mapped)@.contains_key(records@[i]@.store_id),
    ensures
        (RestoreView { world: final(world)@, mapped: final(mapped)@ })
            == records.deep_view().fold_left(
            (RestoreView { world: old(world)@, mapped: old(mapped)@ }),
            |r: RestoreView, record: PersistedStoreGrantView| restore_store_grant(r, record),
        ),
        forall|id: Seq<char>|
            #[trigger] old(mapped)@.contains_key(id) ==> final(mapped)@.contains_key(id),
        forall|i: int|
            0 <= i < records@.len() ==> final(mapped)@.contains_key((#[trigger] records@[i])@.id),
{
    broadcast use crate::fold::group_fold;

    let ghost known = mapped@;
    let ghost start = RestoreView { world: world@, mapped: known };
    let ghost step = |r: RestoreView, record: PersistedStoreGrantView| restore_store_grant(r, record);
    let ghost views = records.deep_view();
    let mut i: usize = 0;
    while i < records.len()
        invariant
            i <= records@.len(),
            views == records.deep_view(),
            step == (|r: RestoreView, record: PersistedStoreGrantView| restore_store_grant(r, record)),
            (RestoreView { world: world@, mapped: mapped@ }) == views.take(i as int).fold_left(
                start,
                step,
            ),
            forall|k: int|
                #![trigger records@[k]]
                0 <= k < records@.len() ==> mapped@.contains_key(records@[k]@.agent_id) && mapped@.contains_key(records@[k]@.store_id),
            forall|id: Seq<char>|
                #[trigger] known.contains_key(id) ==> mapped@.contains_key(id),
            forall|k: int| 0 <= k < i ==> mapped@.contains_key((#[trigger] records@[k])@.id),
        decreases records@.len() - i,
    {
        let record = &records[i];
        proof {
            lemma_fold_next(views, i as int, start, step);
            assert(views[i as int] == record@);
        }
        let agent_id = mapped_reference(mapped, &record.agent_id);
        let store_id = mapped_reference(mapped, &record.store_id);
        let entity = world.spawn_store_grant(
            record.id.clone(),
            record.tenant.clone(),
            record.grant,
            agent_id,
            store_id,
        );
        mapped.insert(record.id.text(), entity);
        i = i + 1;
    }
}

/// The entity of a stable id that is known to be there.
fn mapped_reference(mapped: &TextMap<Entity>, id: &StableId) -> (e: Entity)
    requires
        mapped@.contains_key(id@),
    ensures
        e == mapped@[id@],
{
    match mapped.get(id.key()) {
        Some(e) => *e,
        None => Entity::placeholder(),
    }
}

/// Ids of the entities of one kind are ids of entities.
proof fn lemma_kind_known(w: WorldView, kind: spec_fn(Entity) -> bool, ids: Seq<Entity>)
    ensures
        forall|id: Seq<char>| #[trigger]
            tenants_among(w, kind, ids).contains_key(id) ==> indexed(w, ids).contains_key(id),
    decreases ids.len(),
{
    if ids.len() > 0 {
        let rest = ids.drop_last();
        lemma_kind_known(w, kind, rest);
        assert forall|id: Seq<char>| #[trigger]
            tenants_among(w, kind, ids).contains_key(id) implies indexed(w, ids).contains_key(id) by {
            if id != w.stable_ids[ids.last()] {
                assert(tenants_among(w, kind, rest).contains_key(id));
            }
        }
    }
}

/// Ids with a tenant are those that had one and those of the records.
proof fn lemma_tenants_known(
    tenants: Map<Seq<char>, Seq<char>>,
    records: Seq<(Seq<char>, Seq<char>)>,
)
    ensures
        forall|id: Seq<char>| #[trigger]
            with_tenants(tenants, records).contains_key(id) ==> tenants.contains_key(id) || exists|
                i: int,
            |
                0 <= i < records.len() && (#[trigger] records[i]).0 == id,
    decreases records.len(),
{
    if records.len() > 0 {
        lemma_tenants_known(tenants, records.drop_last());
        assert forall|id: Seq<char>| #[trigger]
            with_tenants(tenants, records).contains_key(id) implies tenants.contains_key(id)
            || exists|i: int| 0 <= i < records.len() && (#[trigger] records[i]).0 == id by {
            if id == records.last().0 {
                assert(records[records.len() - 1].0 == id);
            } else {
                assert(with_tenants(tenants, records.drop_last()).contains_key(id));
                if !tenants.contains_key(id) {
                    let i = choose|i: int|
                        0 <= i < records.drop_last().len() && (#[trigger] records.drop_last()[i]).0
                            == id;
                    assert(records[i].0 == id);
                }
            }
        }
    }
}

/// Where no record is faulty first, none is faulty.
proof fn lemma_no_fault<A, B>(items: Seq<A>, pick: spec_fn(A) -> Option<B>, from: int)
    requires
        first_picked(items, pick, from) is None,
        0 <= from,
    ensures
        forall|i: int| from <= i < items.len() ==> pick(#[trigger] items[i]) is None,
    decreases items.len() - from,
{
    if from < items.len() {
        lemma_no_fault(items, pick, from + 1);
    }
}

/// Restores every record of a snapshot, or none of them.
#[verifier::rlimit(60)]
#[verifier::spinoff_prover]
pub fn restore_domain(world: &mut World, snapshot: DomainSnapshot) -> (r: Result<
    RestoredEntities,
    PersistenceError,
>)
    ensures
        match r {
            Ok(entities) => {
                &&& restore_fault(old(world)@, snapshot@) is None
                &&& final(world)@ == restored(old(world)@, snapshot@).world
                &&& entities@ == restored_entities(old(world)@, snapshot@)
            },
            Err(error) => {
                &&& restore_fault(old(world)@, snapshot@) == Some(error@)
                &&& final(world)@ == old(world)@
            },
        },
{
    let ghost w = world@;
    let ghost s = snapshot@;
    let mut mapped = build_index(world);
    if let Some(error) = find_restore_fault(world, &mapped, &snapshot) {
        return Err(error);
    }
    proof {
        lemma_no_fault(s.agents, |r: PersistedAgentView| agent_fault(w, s, r), 0);
        lemma_no_fault(s.policies, |r: PersistedPolicyView| policy_fault(w, s, r), 0);
        lemma_no_fault(
            s.tools,
            |r: PersistedToolView| provenance_fault(source_tenants(w, s), r),
            0,
        );
        lemma_no_fault(s.tool_grants, |r: PersistedToolGrantView| tool_grant_fault(w, s, r), 0);
        lemma_no_fault(s.store_grants, |r: PersistedStoreGrantView| store_grant_fault(w, s, r), 0);
        lemma_references_known(w, s);
    }
    spawn_discovery_sources(world, &mut mapped, &snapshot.discovery_sources);
    spawn_models(world, &mut mapped, &snapshot.models);
    proof {
        assert forall|i: int| #![trigger snapshot.tools@[i]]
            0 <= i < snapshot.tools@.len() && snapshot.tools@[i]@.source_id is Some implies
            mapped@.contains_key(snapshot.tools@[i]@.source_id->0) by {
            assert(s.tools[i] == snapshot.tools@[i]@);
            let id = s.tools[i].source_id->0;
            assert(source_tenants(w, s).contains_key(id));
            if !id_index(w).contains_key(id) {
                let k = choose|k: int|
                    0 <= k < s.discovery_sources.len() && (#[trigger] s.discovery_sources[k]).id
                        == id;
                assert(s.discovery_sources[k] == snapshot.discovery_sources@[k]@);
            }
        }
    }
    spawn_tools(world, &mut mapped, &snapshot.tools);
    spawn_stores(world, &mut mapped, &snapshot.stores);
    proof {
        assert forall|i: int| #![trigger snapshot.agents@[i]]
            0 <= i < snapshot.agents@.len() implies mapped@.contains_key(
            snapshot.agents@[i]@.model_id,
        ) by {
            assert(s.agents[i] == snapshot.agents@[i]@);
            let id = s.agents[i].model_id;
            assert(model_tenants(w, s).contains_key(id));
            if !id_index(w).contains_key(id) {
                let k = choose|k: int|
                    0 <= k < s.models.len() && (#[trigger] s.models[k]).id == id;
                assert(s.models[k] == snapshot.models@[k]@);
            }
        }
    }
    spawn_agents(world, &mut mapped, &snapshot.agents);
    let ghost with_agents = mapped@;
    proof {
        assert forall|id: Seq<char>| #[trigger] agent_tenants(w, s).contains_key(id) implies
            with_agents.contains_key(id) by {
            if !id_index(w).contains_key(id) {
                let k = choose|k: int|
                    0 <= k < s.agents.len() && (#[trigger] s.agents[k]).id == id;
                assert(s.agents[k] == snapshot.agents@[k]@);
            }
        }
        assert forall|id: Seq<char>| #[trigger] tool_tenants(w, s).contains_key(id) implies
            with_agents.contains_key(id) by {
            if !id_index(w).contains_key(id) {
                let k = choose|k: int|
                    0 <= k < s.tools.len() && (#[trigger] s.tools[k]).id == id;
                assert(s.tools[k] == snapshot.tools@[k]@);
            }
        }
        assert forall|id: Seq<char>| #[trigger] store_tenants(w, s).contains_key(id) implies
            with_agents.contains_key(id) by {
            if !id_index(w).contains_key(id) {
                let k = choose|k: int|
                    0 <= k < s.stores.len() && (#[trigger] s.stores[k]).id == id;
                assert(s.stores[k] == snapshot.stores@[k]@);
            }
        }
        assert forall|i: int| #![trigger snapshot.policies@[i]]
            0 <= i < snapshot.policies@.len() implies mapped@.contains_key(
            snapshot.policies@[i]@.agent_id,
        ) by {
            assert(s.policies[i] == snapshot.policies@[i]@);
            assert(agent_tenants(w, s).contains_key(s.policies[i].agent_id));
        }
    }
    spawn_policies(world, &mut mapped, &snapshot.policies);
    proof {
        assert forall|i: int| #![trigger snapshot.tool_grants@[i]]
            0 <= i < snapshot.tool_grants@.len() implies mapped@.contains_key(
            snapshot.tool_grants@[i]@.agent_id,
        ) && mapped@.contains_key(snapshot.tool_grants@[i]@.tool_id) by {
            assert(s.tool_grants[i] == snapshot.tool_grants@[i]@);
            assert(agent_tenants(w, s).contains_key(s.tool_grants[i].agent_id));
            assert(tool_tenants(w, s).contains_key(s.tool_grants[i].tool_id));
        }
    }
    spawn_tool_grants(world, &mut mapped, &snapshot.tool_grants);
    proof {
        assert forall|i: int| #![trigger snapshot.store_grants@[i]]
            0 <= i < snapshot.store_grants@.len() implies mapped@.contains_key(
            snapshot.store_grants@[i]@.agent_id,
        ) && mapped@.contains_key(snapshot.store_grants@[i]@.store_id) by {
            assert(s.store_grants[i] == snapshot.store_grants@[i]@);
            assert(agent_tenants(w, s).contains_key(s.store_grants[i].agent_id));
            assert(store_tenants(w, s).contains_key(s.store_grants[i].store_id));
        }
    }
    spawn_store_grants(world, &mut mapped, &snapshot.store_grants);
    Ok(RestoredEntities(select_entities(&mapped, &collect_ids(&snapshot))))
}

/// Ids with a tenant belong to an entity of the world or to a record of the snapshot.
proof fn lemma_references_known(w: WorldView, s: DomainSnapshotView)
    ensures
        forall|id: Seq<char>| #[trigger]
            model_tenants(w, s).contains_key(id) ==> id_index(w).contains_key(id) || exists|i: int|
                0 <= i < s.models.len() && (#[trigger] s.models[i]).id == id,
        forall|id: Seq<char>| #[trigger]
            agent_tenants(w, s).contains_key(id) ==> id_index(w).contains_key(id) || exists|i: int|
                0 <= i < s.agents.len() && (#[trigger] s.agents[i]).id == id,
        forall|id: Seq<char>| #[trigger]
            source_tenants(w, s).contains_key(id) ==> id_index(w).contains_key(id) || exists|i: int|
                0 <= i < s.discovery_sources.len() && (#[trigger] s.discovery_sources[i]).id == id,
        forall|id: Seq<char>| #[trigger]
            tool_tenants(w, s).contains_key(id) ==> id_index(w).contains_key(id) || exists|i: int|
                0 <= i < s.tools.len() && (#[trigger] s.tools[i]).id == id,
        forall|id: Seq<char>| #[trigger]
            store_tenants(w, s).contains_key(id) ==> id_index(w).contains_key(id) || exists|i: int|
                0 <= i < s.stores.len() && (#[trigger] s.stores[i]).id == id,
{
    let all = entities_of(w.stable_ids.dom());
    let base = kind_tenants(w, |e: Entity| w.domain.models.contains_key(e));
    let pairs = Seq::new(s.models.len(), |i: int| (s.models[i].id, s.models[i].tenant));
    lemma_kind_known(w, |e: Entity| w.domain.models.contains_key(e), all);
    lemma_tenants_known(base, pairs);
    assert forall|id: Seq<char>| #[trigger] model_tenants(w, s).contains_key(id) implies id_index(
        w,
    ).contains_key(id) || exists|i: int| 0 <= i < s.models.len() && (#[trigger] s.models[i]).id == id by {
        assert(with_tenants(base, pairs).contains_key(id));
        if !base.contains_key(id) {
            let i = choose|i: int| 0 <= i < pairs.len() && (#[trigger] pairs[i]).0 == id;
            assert(s.models[i].id == id);
        }
    }
    let base = kind_tenants(w, |e: Entity| w.domain.agents.contains_key(e));
    let pairs = Seq::new(s.agents.len(), |i: int| (s.agents[i].id, s.agents[i].tenant));
    lemma_kind_known(w, |e: Entity| w.domain.agents.contains_key(e), all);
    lemma_tenants_known(base, pairs);
    assert forall|id: Seq<char>| #[trigger] agent_tenants(w, s).contains_key(id) implies id_index(
        w,
    ).contains_key(id) || exists|i: int| 0 <= i < s.agents.len() && (#[trigger] s.agents[i]).id == id by {
        assert(with_tenants(base, pairs).contains_key(id));
        if !base.contains_key(id) {
            let i = choose|i: int| 0 <= i < pairs.len() && (#[trigger] pairs[i]).0 == id;
            assert(s.agents[i].id == id);
        }
    }
    let base = kind_tenants(w, |e: Entity| w.domain.sources.contains_key(e));
    let pairs = Seq::new(s.discovery_sources.len(), |i: int| (s.discovery_sources[i].id, s.discovery_sources[i].tenant));
    lemma_kind_known(w, |e: Entity| w.domain.sources.contains_key(e), all);
    lemma_tenants_known(base, pairs);
    assert forall|id: Seq<char>| #[trigger] source_tenants(w, s).contains_key(id) implies id_index(
        w,
    ).contains_key(id) || exists|i: int| 0 <= i < s.discovery_sources.len() && (#[trigger] s.discovery_sources[i]).id == id by {
        assert(with_tenants(base, pairs).contains_key(id));
        if !base.contains_key(id) {
            let i = choose|i: int| 0 <= i < pairs.len() && (#[trigger] pairs[i]).0 == id;
            assert(s.discovery_sources[i].id == id);
        }
    }
    let base = kind_tenants(w, |e: Entity| w.domain.tools.contains_key(e));
    let pairs = Seq::new(s.tools.len(), |i: int| (s.tools[i].id, s.tools[i].tenant));
    lemma_kind_known(w, |e: Entity| w.domain.tools.contains_key(e), all);
    lemma_tenants_known(base, pairs);
    assert forall|id: Seq<char>| #[trigger] tool_tenants(w, s).contains_key(id) implies id_index(
        w,
    ).contains_key(id) || exists|i: int| 0 <= i < s.tools.len() && (#[trigger] s.tools[i]).id == id by {
        assert(with_tenants(base, pairs).contains_key(id));
        if !base.contains_key(id) {
            let i = choose|i: int| 0 <= i < pairs.len() && (#[trigger] pairs[i]).0 == id;
            assert(s.tools[i].id == id);
        }
    }
    let base = kind_tenants(w, |e: Entity| w.domain.stores.contains_key(e));
    let pairs = Seq::new(s.stores.len(), |i: int| (s.stores[i].id, s.stores[i].tenant));
    lemma_kind_known(w, |e: Entity| w.domain.stores.contains_key(e), all);
    lemma_tenants_known(base, pairs);
    assert forall|id: Seq<char>| #[trigger] store_tenants(w, s).contains_key(id) implies id_index(
        w,
    ).contains_key(id) || exists|i: int| 0 <= i < s.stores.len() && (#[trigger] s.stores[i]).id == id by {
        assert(with_tenants(base, pairs).contains_key(id));
        if !base.contains_key(id) {
            let i = choose|i: int| 0 <= i < pairs.len() && (#[trigger] pairs[i]).0 == id;
            assert(s.stores[i].id == id);
        }
    }
}

} // verus!
