//! Reconciliation of stable ids and validation of relationships.

use vstd::prelude::*;

use crate::column::{entities_of, Column, Entity};
use crate::fold::{lemma_picked_next, picked};
use crate::restore::{build_index, id_index};
use crate::run::{RuntimeInvariantError, RuntimeInvariantErrorView};
use crate::snapshot::id_key;
use crate::sorting::{row_values, sort_rows, sort_values, KeyPart};
use crate::world::{ResourcesView, World, WorldView};

verus! {

/// Whether one of the given entities has the id.
pub open spec fn id_among(w: WorldView, ids: Seq<Entity>, id: Seq<char>) -> bool {
    exists|i: int| 0 <= i < ids.len() && w.stable_ids[#[trigger] ids[i]] == id
}

/// The ids that more than one of the given entities has, each once, in the order in which they
/// are met again.
pub open spec fn shared_ids(w: WorldView, ids: Seq<Entity>) -> Seq<Seq<char>>
    decreases ids.len(),
{
    if ids.len() == 0 {
        Seq::empty()
    } else {
        let rest = shared_ids(w, ids.drop_last());
        let id = w.stable_ids[ids.last()];
        if id_among(w, ids.drop_last(), id) && !rest.contains(id) {
            rest.push(id)
        } else {
            rest
        }
    }
}

/// The violations of the uniqueness of stable ids, in the order of the ids.
pub open spec fn duplicate_violations(w: WorldView) -> Seq<RuntimeInvariantErrorView> {
    let ids = shared_ids(w, entities_of(w.stable_ids.dom()));
    let sorted = row_values(sort_rows(Seq::new(ids.len(), |i: int| (id_key(ids[i]), ids[i]))));
    Seq::new(sorted.len(), |i: int| RuntimeInvariantErrorView::DuplicateStableId(sorted[i]))
}

/// What is wrong with the relationship of an entity that has a tenant, if something is: its
/// target lacks a tenant or is of the wrong kind, or belongs to another tenant.
pub open spec fn relation_violation(
    w: WorldView,
    relation: Map<Entity, Entity>,
    kind: spec_fn(Entity) -> bool,
    label: Seq<char>,
    e: Entity,
) -> Option<RuntimeInvariantErrorView> {
    let target = relation[e];
    if !w.tenants.contains_key(e) {
        None
    } else if !(w.tenants.contains_key(target) && kind(target)) {
        Some(
            RuntimeInvariantErrorView::InvalidRelationship {
                entity: e,
                relationship: label,
                target,
            },
        )
    } else if w.tenants[target] != w.tenants[e] {
        Some(
            RuntimeInvariantErrorView::RelationshipTenantMismatch {
                entity: e,
                relationship: label,
            },
        )
    } else {
        None
    }
}

/// The violations of one kind of relationship.
pub open spec fn relation_violations(
    w: WorldView,
    relation: Map<Entity, Entity>,
    kind: spec_fn(Entity) -> bool,
    label: Seq<char>,
) -> Seq<RuntimeInvariantErrorView> {
    picked(
        entities_of(relation.dom()),
        |e: Entity| relation_violation(w, relation, kind, label, e),
    )
}

/// All violations that a world shows.
pub open spec fn violations(w: WorldView) -> Seq<RuntimeInvariantErrorView> {
    duplicate_violations(w)
        + relation_violations(
            w,
            w.domain.uses_model,
            |e: Entity| w.domain.models.contains_key(e),
            "UsesModel"@,
        )
        + relation_violations(
            w,
            w.domain.policy_for,
            |e: Entity| w.domain.agents.contains_key(e),
            "PolicyFor"@,
        )
        + relation_violations(
            w,
            w.domain.grant_for_agent,
            |e: Entity| w.domain.agents.contains_key(e),
            "GrantForAgent"@,
        )
        + relation_violations(
            w,
            w.domain.grant_for_tool,
            |e: Entity| w.domain.tools.contains_key(e),
            "GrantForTool"@,
        )
        + relation_violations(
            w,
            w.domain.store_grant_for_agent,
            |e: Entity| w.domain.agents.contains_key(e),
            "StoreGrantForAgent"@,
        )
        + relation_violations(
            w,
            w.domain.store_grant_for_store,
            |e: Entity| w.domain.stores.contains_key(e),
            "StoreGrantForStore"@,
        )
        + relation_violations(
            w,
            w.domain.discovered_from,
            |e: Entity| w.domain.sources.contains_key(e),
            "DiscoveredFrom"@,
        )
        + relation_violations(
            w,
            w.runs.run_of,
            |e: Entity| w.domain.agents.contains_key(e),
            "RunOf"@,
        )
        + relation_violations(
            w,
            w.runs.turn_of,
            |e: Entity| w.runs.states.contains_key(e),
            "TurnOf"@,
        )
        + relation_violations(
            w,
            w.operations.operation_of,
            |e: Entity| w.runs.states.contains_key(e),
            "OperationOf"@,
        )
        + relation_violations(
            w,
            w.operations.batch_of,
            |e: Entity| w.runs.states.contains_key(e),
            "BatchOf"@,
        )
        + relation_violations(
            w,
            w.runs.subscription_of,
            |e: Entity| w.runs.states.contains_key(e),
            "SubscriptionOf"@,
        )
}

/// The world with its index and its violations brought up to date.
pub open spec fn reconciled(w: WorldView) -> WorldView {
    WorldView {
        resources: ResourcesView {
            index: id_index(w),
            violations: violations(w),
            ..w.resources
        },
        ..w
    }
}

fn contains_text(texts: &Vec<String>, text: &String) -> (r: bool)
    ensures
        r == texts.deep_view().contains(text@),
{
    let ghost views = texts.deep_view();
    let mut i: usize = 0;
    while i < texts.len()
        invariant
            i <= texts@.len(),
            views == texts.deep_view(),
            forall|k: int| 0 <= k < i ==> #[trigger] views[k] != text@,
        decreases texts@.len() - i,
    {
        assert(views[i as int] == texts@[i as int]@);
        if texts[i] == *text {
            return true;
        }
        i = i + 1;
    }
    false
}

fn find_shared(world: &World) -> (r: Vec<String>)
    ensures
        r.deep_view() == shared_ids(world@, entities_of(world@.stable_ids.dom())),
{
    let ids = world.stable_ids.entities();
    let mut seen: Vec<String> = Vec::new();
    let mut r: Vec<String> = Vec::new();
    let mut i: usize = 0;
    assert(ids@.take(0) =~= Seq::empty());
    assert(r.deep_view() =~= Seq::empty());
    while i < ids.len()
        invariant
            i <= ids@.len(),
            forall|k: int| 0 <= k < ids@.len() ==> world@.stable_ids.contains_key(#[trigger] ids@[k]),
            seen@.len() == i,
            forall|k: int|
                0 <= k < i ==> (#[trigger] seen@[k])@ == world@.stable_ids[ids@[k]],
            r.deep_view() == shared_ids(world@, ids@.take(i as int)),
        decreases ids@.len() - i,
    {
        let ghost head = ids@.take(i as int);
        proof {
            assert(ids@.take(i + 1).drop_last() =~= head);
            assert(ids@.take(i + 1).last() == ids@[i as int]);
            assert(world@.stable_ids.contains_key(ids@[i as int]));
        }
        if let Some(stable_id) = world.stable_ids.get(ids[i]) {
            let id = stable_id.text();
            let repeated = contains_text(&seen, &id);
            proof {
                if id_among(world@, head, id@) {
                    let k = choose|k: int|
                        0 <= k < head.len() && world@.stable_ids[#[trigger] head[k]] == id@;
                    assert(seen.deep_view()[k] == seen@[k]@);
                }
                if repeated {
                    let k = choose|k: int|
                        0 <= k < seen.deep_view().len() && seen.deep_view()[k] == id@;
                    assert(seen@[k]@ == id@);
                    assert(world@.stable_ids[head[k]] == id@);
                }
            }
            let ghost before = r.deep_view();
            if repeated && !contains_text(&r, &id) {
                r.push(id.clone());
                assert(r.deep_view() =~= before.push(id@));
            }
            seen.push(id);
        }
        i = i + 1;
    }
    assert(ids@.take(i as int) =~= ids@);
    r
}

fn find_duplicates(world: &World) -> (r: Vec<RuntimeInvariantError>)
    ensures
        r.deep_view() == duplicate_violations(world@),
{
    let ids = find_shared(world);
    let ghost views = ids.deep_view();
    let mut rows: Vec<(Vec<KeyPart>, String)> = Vec::new();
    let mut i: usize = 0;
    while i < ids.len()
        invariant
            i <= ids@.len(),
            views == ids.deep_view(),
            rows@.len() == i,
            forall|k: int|
                0 <= k < i ==> (#[trigger] rows@[k]).deep_view() == (id_key(views[k]), views[k]),
        decreases ids@.len() - i,
    {
        let key = vec![KeyPart::Text(ids[i].clone())];
        assert(key.deep_view() =~= id_key(views[i as int]));
        rows.push((key, ids[i].clone()));
        i = i + 1;
    }
    assert(rows.deep_view() =~= Seq::new(views.len(), |k: int| (id_key(views[k]), views[k])));
    let sorted = sort_values(rows);
    let mut r: Vec<RuntimeInvariantError> = Vec::new();
    let mut i: usize = 0;
    while i < sorted.len()
        invariant
            i <= sorted@.len(),
            r@.len() == i,
            forall|k: int|
                0 <= k < i ==> (#[trigger] r@[k])@ == RuntimeInvariantErrorView::DuplicateStableId(
                    sorted.deep_view()[k],
                ),
        decreases sorted@.len() - i,
    {
        r.push(RuntimeInvariantError::DuplicateStableId(sorted[i].clone()));
        i = i + 1;
    }
    assert(r.deep_view() =~= duplicate_violations(world@));
    r
}

fn check_relation<F: Fn(Entity) -> bool>(
    world: &World,
    relation: &Column<Entity>,
    has: F,
    label: &'static str,
    found: &mut Vec<RuntimeInvariantError>,
    Ghost(kind): Ghost<spec_fn(Entity) -> bool>,
)
    requires
        forall|e: Entity| #[trigger] has.requires((e,)),
        forall|e: Entity, r: bool| has.ensures((e,), r) ==> r == kind(e),
    ensures
        final(found).deep_view() == old(found).deep_view() + relation_violations(
            world@,
            relation@,
            kind,
            label@,
        ),
{
    broadcast use crate::fold::group_fold;

    let ids = relation.entities();
    let ghost start = found.deep_view();
    let ghost pick = |e: Entity| relation_violation(world@, relation@, kind, label@, e);
    let mut i: usize = 0;
    assert(start + picked(ids@.take(0), pick) =~= start);
    while i < ids.len()
        invariant
            i <= ids@.len(),
            forall|e: Entity| #[trigger] has.requires((e,)),
            forall|e: Entity, r: bool| has.ensures((e,), r) ==> r == kind(e),
            forall|k: int| 0 <= k < ids@.len() ==> relation@.contains_key(#[trigger] ids@[k]),
            pick == (|e: Entity| relation_violation(world@, relation@, kind, label@, e)),
            found.deep_view() == start + picked(ids@.take(i as int), pick),
        decreases ids@.len() - i,
    {
        let e = ids[i];
        proof {
            lemma_picked_next(ids@, i as int, pick);
            assert(relation@.contains_key(ids@[i as int]));
        }
        let ghost before = found.deep_view();
        if let Some(target) = relation.get(e) {
            if let Some(tenant) = world.tenants.get(e) {
                let fits = has(*target);
                match world.tenants.get(*target) {
                    Some(target_tenant) => {
                        if !fits {
                            found.push(
                                RuntimeInvariantError::InvalidRelationship {
                                    entity: e,
                                    relationship: label,
                                    target: *target,
                                },
                            );
                            assert(found.deep_view() =~= before.push(pick(e)->0));
                        } else if !target_tenant.same(tenant) {
                            found.push(
                                RuntimeInvariantError::RelationshipTenantMismatch {
                                    entity: e,
                                    relationship: label,
                                },
                            );
                            assert(found.deep_view() =~= before.push(pick(e)->0));
                        }
                    },
                    None => {
                        found.push(
                            RuntimeInvariantError::InvalidRelationship {
                                entity: e,
                                relationship: label,
                                target: *target,
                            },
                        );
                        assert(found.deep_view() =~= before.push(pick(e)->0));
                    },
                }
            }
        }
        proof {
            assert(found.deep_view() =~= start + picked(ids@.take(i + 1), pick));
        }
        i = i + 1;
    }
}

fn check_domain_relations(world: &World, found: &mut Vec<RuntimeInvariantError>)
    ensures
        final(found).deep_view() == old(found).deep_view()
            + relation_violations(
                world@,
                world@.domain.uses_model,
                |e: Entity| world@.domain.models.contains_key(e),
                "UsesModel"@,
            )
            + relation_violations(
                world@,
                world@.domain.policy_for,
                |e: Entity| world@.domain.agents.contains_key(e),
                "PolicyFor"@,
            )
            + relation_violations(
                world@,
                world@.domain.grant_for_agent,
                |e: Entity| world@.domain.agents.contains_key(e),
                "GrantForAgent"@,
            )
            + relation_violations(
                world@,
                world@.domain.grant_for_tool,
                |e: Entity| world@.domain.tools.contains_key(e),
                "GrantForTool"@,
            )
            + relation_violations(
                world@,
                world@.domain.store_grant_for_agent,
                |e: Entity| world@.domain.agents.contains_key(e),
                "StoreGrantForAgent"@,
            )
            + relation_violations(
                world@,
                world@.domain.store_grant_for_store,
                |e: Entity| world@.domain.stores.contains_key(e),
                "StoreGrantForStore"@,
            )
            + relation_violations(
                world@,
                world@.domain.discovered_from,
                |e: Entity| world@.domain.sources.contains_key(e),
                "DiscoveredFrom"@,
            ),
{
    let has = |e: Entity| -> (r: bool)
        ensures
            r == world@.domain.models.contains_key(e),
    {
        world.domain.models.contains(e)
    };
    check_relation(
        world,
        &world.domain.uses_model,
        has,
        "UsesModel",
        found,
        Ghost(|e: Entity| world@.domain.models.contains_key(e)),
    );
    let has = |e: Entity| -> (r: bool)
        ensures
            r == world@.domain.agents.contains_key(e),
    {
        world.domain.agents.contains(e)
    };
    check_relation(
        world,
        &world.domain.policy_for,
        has,
        "PolicyFor",
        found,
        Ghost(|e: Entity| world@.domain.agents.contains_key(e)),
    );
    let has = |e: Entity| -> (r: bool)
        ensures
            r == world@.domain.agents.contains_key(e),
    {
        world.domain.agents.contains(e)
    };
    check_relation(
        world,
        &world.domain.grant_for_agent,
        has,
        "GrantForAgent",
        found,
        Ghost(|e: Entity| world@.domain.agents.contains_key(e)),
    );
    let has = |e: Entity| -> (r: bool)
        ensures
            r == world@.domain.tools.contains_key(e),
    {
        world.domain.tools.contains(e)
    };
    check_relation(
        world,
        &world.domain.grant_for_tool,
        has,
        "GrantForTool",
        found,
        Ghost(|e: Entity| world@.domain.tools.contains_key(e)),
    );
    let has = |e: Entity| -> (r: bool)
        ensures
            r == world@.domain.agents.contains_key(e),
    {
        world.domain.agents.contains(e)
    };
    check_relation(
        world,
        &world.domain.store_grant_for_agent,
        has,
        "StoreGrantForAgent",
        found,
        Ghost(|e: Entity| world@.domain.agents.contains_key(e)),
    );
    let has = |e: Entity| -> (r: bool)
        ensures
            r == world@.domain.stores.contains_key(e),
    {
        world.domain.stores.contains(e)
    };
    check_relation(
        world,
        &world.domain.store_grant_for_store,
        has,
        "StoreGrantForStore",
        found,
        Ghost(|e: Entity| world@.domain.stores.contains_key(e)),
    );
    let has = |e: Entity| -> (r: bool)
        ensures
            r == world@.domain.sources.contains_key(e),
    {
        world.domain.sources.contains(e)
    };
    check_relation(
        world,
        &world.domain.discovered_from,
        has,
        "DiscoveredFrom",
        found,
        Ghost(|e: Entity| world@.domain.sources.contains_key(e)),
    );
}

fn check_run_relations(world: &World, found: &mut Vec<RuntimeInvariantError>)
    ensures
        final(found).deep_view() == old(found).deep_view()
            + relation_violations(
                world@,
                world@.runs.run_of,
                |e: Entity| world@.domain.agents.contains_key(e),
                "RunOf"@,
            )
            + relation_violations(
                world@,
                world@.runs.turn_of,
                |e: Entity| world@.runs.states.contains_key(e),
                "TurnOf"@,
            )
            + relation_violations(
                world@,
                world@.operations.operation_of,
                |e: Entity| world@.runs.states.contains_key(e),
                "OperationOf"@,
            )
            + relation_violations(
                world@,
                world@.operations.batch_of,
                |e: Entity| world@.runs.states.contains_key(e),
                "BatchOf"@,
            )
            + relation_violations(
                world@,
                world@.runs.subscription_of,
                |e: Entity| world@.runs.states.contains_key(e),
                "SubscriptionOf"@,
            ),
{
    let has = |e: Entity| -> (r: bool)
        ensures
            r == world@.domain.agents.contains_key(e),
    {
        world.domain.agents.contains(e)
    };
    check_relation(
        world,
        &world.runs.run_of,
        has,
        "RunOf",
        found,
        Ghost(|e: Entity| world@.domain.agents.contains_key(e)),
    );
    let has = |e: Entity| -> (r: bool)
        ensures
            r == world@.runs.states.contains_key(e),
    {
        world.runs.states.contains(e)
    };
    check_relation(
        world,
        &world.runs.turn_of,
        has,
        "TurnOf",
        found,
        Ghost(|e: Entity| world@.runs.states.contains_key(e)),
    );
    let has = |e: Entity| -> (r: bool)
        ensures
            r == world@.runs.states.contains_key(e),
    {
        world.runs.states.contains(e)
    };
    check_relation(
        world,
        &world.operations.operation_of,
        has,
        "OperationOf",
        found,
        Ghost(|e: Entity| world@.runs.states.contains_key(e)),
    );
    let has = |e: Entity| -> (r: bool)
        ensures
            r == world@.runs.states.contains_key(e),
    {
        world.runs.states.contains(e)
    };
    check_relation(
        world,
        &world.operations.batch_of,
        has,
        "BatchOf",
        found,
        Ghost(|e: Entity| world@.runs.states.contains_key(e)),
    );
    let has = |e: Entity| -> (r: bool)
        ensures
            r == world@.runs.states.contains_key(e),
    {
        world.runs.states.contains(e)
    };
    check_relation(
        world,
        &world.runs.subscription_of,
        has,
        "SubscriptionOf",
        found,
        Ghost(|e: Entity| world@.runs.states.contains_key(e)),
    );
}

/// Rebuilds the index of stable ids and records every violation.
pub fn reconcile_stable_ids(world: &mut World)
    ensures
        final(world)@ == reconciled(old(world)@),
{
    let index = build_index(world);
    let mut found = find_duplicates(world);
    check_domain_relations(world, &mut found);
    check_run_relations(world, &mut found);
    proof {
        assert(found.deep_view() =~= violations(world@));
    }
    world.resources.index = index;
    world.resources.violations = found;
}

} // verus!
