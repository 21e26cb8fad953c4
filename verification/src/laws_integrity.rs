//! What is refused, and what is reported as broken.

use vstd::prelude::*;

use crate::column::{entities_of, lemma_entities, Entity};
use crate::extension::{
    extension_dispatch_fault, extension_settle_fault, extension_spawn_fault,
    with_extension_operation, EcsEffect, ExtensionEffectLifecycleErrorView, ExtensionEffects,
};
use crate::fold::{first_picked, lemma_picked_members};
use crate::policy::{
    policy_install_fault, with_installed_policy, ExtensionInstallErrorView, PolicyEntityBundleView,
};
use crate::reconcile::{
    duplicate_violations, id_among, reconciled, relation_violation, relation_violations,
    shared_ids, violations,
};
use crate::restore::{id_index, indexed};
use crate::run::{
    InstallError, RuntimeConfig, RuntimeInvariantErrorView, SpawnErrorView,
};
use crate::runtime::{install_fault, new_effects, new_handle, spawn_fault, untenanted, with_runtime};
use crate::snapshot::id_key;
use crate::sorting::{lemma_sort_rows, row_values, sort_rows};
use crate::world::WorldView;

verus! {

/// Whether some entity has an id.
pub open spec fn is_used(w: WorldView, id: Seq<char>) -> bool {
    exists|e: Entity| #[trigger] w.stable_ids.contains_key(e) && w.stable_ids[e] == id
}

proof fn lemma_first_untenanted(w: WorldView, related: Seq<Entity>, from: int)
    requires
        0 <= from,
    ensures
        match first_picked(related, |e: Entity| untenanted(w, e), from) {
            Some(e) => related.contains(e) && !w.tenants.contains_key(e),
            None => forall|i: int|
                from <= i < related.len() ==> w.tenants.contains_key(#[trigger] related[i]),
        },
    decreases related.len() - from,
{
    if from < related.len() {
        assert(related.contains(related[from]));
        lemma_first_untenanted(w, related, from + 1);
    }
}

/// An entity can be made exactly where its id is new and every entity that it is related to is
/// there and of its tenant. A refusal says which of these fails.
pub proof fn law_entities_need_a_new_id_and_one_tenant(
    w: WorldView,
    id: Seq<char>,
    tenant: Seq<char>,
    related: Seq<Entity>,
)
    ensures
        ({
            let fault = spawn_fault(w, id, tenant, related);
            let all_there = forall|i: int|
                0 <= i < related.len() ==> w.tenants.contains_key(#[trigger] related[i]);
            let one_tenant = forall|i: int|
                0 <= i < related.len() ==> w.tenants[#[trigger] related[i]] == tenant;
            &&& is_used(w, id) ==> fault == Some(SpawnErrorView::DuplicateStableId(id))
            &&& !is_used(w, id) && !all_there ==> match fault {
                Some(SpawnErrorView::StaleEntity(e)) => related.contains(e)
                    && !w.tenants.contains_key(e),
                _ => false,
            }
            &&& !is_used(w, id) && all_there && !one_tenant ==> fault == Some(
                SpawnErrorView::TenantMismatch,
            )
            &&& !is_used(w, id) && all_there && one_tenant ==> fault is None
        }),
{
    lemma_first_untenanted(w, related, 0);
}

/// A runtime can be installed exactly once, with capacities and limits above zero. It starts with
/// empty queues of these sizes, the clock at zero and nothing done.
pub proof fn law_runtimes_are_installed_once(w: WorldView, config: RuntimeConfig, runtime_id: u64)
    ensures
        ({
            let fault = install_fault(w, config);
            let sized = config.command_capacity > 0 && config.effect_capacity > 0
                && config.completion_capacity > 0 && config.subscriber_capacity > 0
                && config.progress_limit > 0 && config.effect_timeout_ticks > 0;
            &&& w.resources.runtime is Some ==> fault == Some(InstallError::AlreadyInstalled)
            &&& w.resources.runtime is None && !sized ==> fault == Some(
                InstallError::InvalidCapacity,
            )
            &&& w.resources.runtime is None && sized ==> fault is None
        }),
        install_fault(with_runtime(w, config, runtime_id), config) == Some(
            InstallError::AlreadyInstalled,
        ),
        with_runtime(w, config, runtime_id).resources.runtime == Some(runtime_id),
        with_runtime(w, config, runtime_id).resources.tick == 0,
        with_runtime(w, config, runtime_id).resources.effect_timeout_ticks
            == config.effect_timeout_ticks,
        with_runtime(w, config, runtime_id).resources.messages.len() == 0,
        with_runtime(w, config, runtime_id).domain == w.domain,
        with_runtime(w, config, runtime_id).stable_ids == w.stable_ids,
        new_handle(config, runtime_id).runtime_id == runtime_id,
        new_handle(config, runtime_id).commands.items.len() == 0,
        new_handle(config, runtime_id).commands.capacity == config.command_capacity,
        new_handle(config, runtime_id).commands.receiving,
        new_handle(config, runtime_id).subscriber_capacity == config.subscriber_capacity,
        new_effects(config).requests.items.len() == 0,
        new_effects(config).requests.capacity == config.effect_capacity,
        new_effects(config).requests.sending,
        new_effects(config).requests.receiving,
        new_effects(config).ingress.capacity == config.completion_capacity,
        new_effects(config).cancellations.capacity == config.effect_capacity,
{
}

/// A policy can be installed exactly where a runtime is, its id is new, and its agent is there and
/// of its tenant. It is then a policy of the agent, as it was given.
pub proof fn law_policies_are_installed_for_their_agent(
    w: WorldView,
    bundle: PolicyEntityBundleView,
)
    ensures
        ({
            let fault = policy_install_fault(w, bundle);
            let agent = bundle.policy_for;
            let known = w.tenants.contains_key(agent) && w.domain.agents.contains_key(agent);
            &&& w.resources.runtime is None ==> fault == Some(
                ExtensionInstallErrorView::RuntimeNotInstalled,
            )
            &&& w.resources.runtime is Some && is_used(w, bundle.id) ==> fault == Some(
                ExtensionInstallErrorView::DuplicateStableId(bundle.id),
            )
            &&& w.resources.runtime is Some && !is_used(w, bundle.id) && !known ==> fault == Some(
                ExtensionInstallErrorView::StaleAgent(agent),
            )
            &&& w.resources.runtime is Some && !is_used(w, bundle.id) && known && w.tenants[agent]
                != bundle.tenant ==> fault == Some(ExtensionInstallErrorView::TenantMismatch)
            &&& w.resources.runtime is Some && !is_used(w, bundle.id) && known && w.tenants[agent]
                == bundle.tenant ==> fault is None
        }),
        ({
            let t = with_installed_policy(w, bundle);
            let e = w.fresh();
            &&& t.stable_ids[e] == bundle.id
            &&& t.tenants[e] == bundle.tenant
            &&& t.domain.policies.contains_key(e)
            &&& t.domain.policies[e] == bundle.policy
            &&& t.domain.policy_for.contains_key(e)
            &&& t.domain.policy_for[e] == bundle.policy_for
            &&& t.domain.policy_status[e] == bundle.status
        }),
{
}

/// An operation of an extension is made for a complete run, under a new id and in the tenant of the
/// run. It is claimed while it is prepared, and settled while it is in flight, in its own
/// generation and by its own kind alone.
pub proof fn law_extension_operations_have_a_lifecycle<E: EcsEffect>(
    w: WorldView,
    effects: ExtensionEffects<E>,
    run: Entity,
    id: Seq<char>,
    operation: Entity,
    generation: u64,
)
    ensures
        ({
            let fault = extension_spawn_fault(w, run, id);
            let complete = w.tenants.contains_key(run) && w.runs.run_of.contains_key(run)
                && w.runs.states.contains_key(run) && w.runs.records.contains_key(run);
            &&& w.resources.runtime is None ==> fault == Some(
                ExtensionEffectLifecycleErrorView::RuntimeNotInstalled,
            )
            &&& w.resources.runtime is Some && !complete ==> fault == Some(
                ExtensionEffectLifecycleErrorView::NotRun,
            )
            &&& w.resources.runtime is Some && complete && is_used(w, id) ==> fault == Some(
                ExtensionEffectLifecycleErrorView::DuplicateStableId(id),
            )
            &&& w.resources.runtime is Some && complete && !is_used(w, id) ==> fault is None
        }),
        ({
            let t = with_extension_operation(w, run, id, effects.kind@);
            let e = w.fresh();
            &&& t.stable_ids[e] == id
            &&& t.tenants[e] == w.tenants[run]
            &&& t.operations.operation_of[e] == run
            &&& t.operations.states[e].phase is Prepared
            &&& t.operations.states[e].generation == 0
            &&& t.controls.extension_kinds[e] == effects.kind@
        }),
        ({
            let own = w.controls.extension_kinds.contains_key(operation)
                && w.controls.extension_kinds[operation] == effects.kind@
                && w.operations.states.contains_key(operation);
            let state = w.operations.states[operation];
            let claim = extension_dispatch_fault(w, effects, operation);
            let settle = extension_settle_fault(w, effects, operation, generation);
            &&& claim is None <==> own && effects.inputs@.contains_key(operation) && state.phase
                is Prepared
            &&& own && effects.inputs@.contains_key(operation) && !(state.phase is Prepared)
                ==> claim == Some(ExtensionEffectLifecycleErrorView::InvalidPhase)
            &&& !own ==> claim == Some(ExtensionEffectLifecycleErrorView::WrongKind(effects.kind@))
            &&& settle is None <==> own && state.generation == generation && state.phase is InFlight
            &&& !own ==> settle == Some(ExtensionEffectLifecycleErrorView::WrongKind(effects.kind@))
            &&& own && state.generation != generation ==> settle == Some(
                ExtensionEffectLifecycleErrorView::StaleGeneration {
                    expected: state.generation,
                    received: generation,
                },
            )
            &&& own && state.generation == generation && !(state.phase is InFlight) ==> settle
                == Some(ExtensionEffectLifecycleErrorView::InvalidPhase)
        }),
{
}

proof fn lemma_indexed(w: WorldView, ids: Seq<Entity>, id: Seq<char>)
    ensures
        indexed(w, ids).contains_key(id) <==> exists|i: int|
            0 <= i < ids.len() && w.stable_ids[#[trigger] ids[i]] == id,
        indexed(w, ids).contains_key(id) ==> ids.contains(indexed(w, ids)[id]) && w.stable_ids[
            indexed(w, ids)[id]
        ] == id,
    decreases ids.len(),
{
    reveal_with_fuel(Seq::fold_left, 2);
    if ids.len() > 0 {
        let front = ids.drop_last();
        let last = ids.last();
        lemma_indexed(w, front, id);
        assert(indexed(w, ids) == indexed(w, front).insert(w.stable_ids[last], last));
        assert(ids[ids.len() - 1] == last);
        if indexed(w, front).contains_key(id) {
            let e = indexed(w, front)[id];
            let k = choose|k: int| 0 <= k < front.len() && front[k] == e;
            assert(ids[k] == e);
            let i = choose|i: int| 0 <= i < front.len() && w.stable_ids[#[trigger] front[i]] == id;
            assert(w.stable_ids[ids[i]] == id);
        }
        if exists|i: int| 0 <= i < ids.len() && w.stable_ids[#[trigger] ids[i]] == id {
            let i = choose|i: int| 0 <= i < ids.len() && w.stable_ids[#[trigger] ids[i]] == id;
            if i < front.len() {
                assert(w.stable_ids[front[i]] == id);
            }
        }
    }
}

/// Once a world is reconciled, each id that an entity has leads to an entity that has it, and no
/// other id leads anywhere.
pub proof fn law_ids_lead_to_their_entities(w: WorldView, id: Seq<char>)
    requires
        w.stable_ids.dom().finite(),
    ensures
        ({
            let index = reconciled(w).resources.index;
            &&& index.contains_key(id) <==> is_used(w, id)
            &&& index.contains_key(id) ==> w.stable_ids.contains_key(index[id])
                && w.stable_ids[index[id]] == id
        }),
        reconciled(w).domain == w.domain,
        reconciled(w).runs == w.runs,
        reconciled(w).operations == w.operations,
{
    let ids = entities_of(w.stable_ids.dom());
    lemma_entities(w.stable_ids.dom());
    lemma_indexed(w, ids, id);
    if id_index(w).contains_key(id) {
        assert(ids.to_set().contains(id_index(w)[id]));
    }
    if is_used(w, id) {
        let e = choose|e: Entity| #[trigger] w.stable_ids.contains_key(e) && w.stable_ids[e] == id;
        assert(ids.to_set().contains(e));
        let i = choose|i: int| 0 <= i < ids.len() && ids[i] == e;
        assert(w.stable_ids[ids[i]] == id);
    }
}

proof fn lemma_shared(w: WorldView, ids: Seq<Entity>, i: int, j: int)
    requires
        0 <= i < j < ids.len(),
        w.stable_ids[ids[i]] == w.stable_ids[ids[j]],
    ensures
        shared_ids(w, ids).contains(w.stable_ids[ids[i]]),
    decreases ids.len(),
{
    let front = ids.drop_last();
    let rest = shared_ids(w, front);
    let all = shared_ids(w, ids);
    let id = w.stable_ids[ids[i]];
    if j < front.len() {
        assert(front[i] == ids[i] && front[j] == ids[j]);
        lemma_shared(w, front, i, j);
        let k = choose|k: int| 0 <= k < rest.len() && rest[k] == id;
        assert(all[k] == id);
    } else {
        assert(front[i] == ids[i]);
        assert(id_among(w, front, id));
        if rest.contains(id) {
            let k = choose|k: int| 0 <= k < rest.len() && rest[k] == id;
            assert(all[k] == id);
        } else {
            assert(all[all.len() - 1] == id);
        }
    }
}

proof fn lemma_none_shared(w: WorldView, ids: Seq<Entity>)
    requires
        forall|i: int, j: int|
            0 <= i < j < ids.len() ==> w.stable_ids[#[trigger] ids[i]] != w.stable_ids[
                #[trigger] ids[j]
            ],
    ensures
        shared_ids(w, ids).len() == 0,
    decreases ids.len(),
{
    if ids.len() > 0 {
        let front = ids.drop_last();
        assert forall|i: int, j: int| 0 <= i < j < front.len() implies w.stable_ids[
            #[trigger] front[i]
        ] != w.stable_ids[#[trigger] front[j]] by {
            assert(ids[i] == front[i] && ids[j] == front[j]);
        }
        lemma_none_shared(w, front);
        if id_among(w, front, w.stable_ids[ids.last()]) {
            let i = choose|i: int|
                0 <= i < front.len() && w.stable_ids[#[trigger] front[i]] == w.stable_ids[
                    ids.last()
                ];
            assert(w.stable_ids[ids[i]] != w.stable_ids[ids[ids.len() - 1]]);
        }
    }
}

proof fn lemma_in_sum<A>(a: Seq<A>, b: Seq<A>, x: A)
    ensures
        (a + b).contains(x) <==> a.contains(x) || b.contains(x),
{
    if a.contains(x) {
        let i = choose|i: int| 0 <= i < a.len() && a[i] == x;
        assert((a + b)[i] == x);
    }
    if b.contains(x) {
        let i = choose|i: int| 0 <= i < b.len() && b[i] == x;
        assert((a + b)[a.len() + i] == x);
    }
    if (a + b).contains(x) {
        let i = choose|i: int| 0 <= i < (a + b).len() && (a + b)[i] == x;
        if i < a.len() {
            assert(a[i] == x);
        } else {
            assert(b[i - a.len()] == x);
        }
    }
}

/// An id that two entities have is reported.
pub proof fn law_shared_ids_are_reported(w: WorldView, a: Entity, b: Entity)
    requires
        w.stable_ids.dom().finite(),
        a != b,
        w.stable_ids.contains_key(a),
        w.stable_ids.contains_key(b),
        w.stable_ids[a] == w.stable_ids[b],
    ensures
        reconciled(w).resources.violations.contains(
            RuntimeInvariantErrorView::DuplicateStableId(w.stable_ids[a]),
        ),
{
    let ids = entities_of(w.stable_ids.dom());
    lemma_entities(w.stable_ids.dom());
    assert(ids.to_set().contains(a) && ids.to_set().contains(b));
    let i = choose|i: int| 0 <= i < ids.len() && ids[i] == a;
    let j = choose|j: int| 0 <= j < ids.len() && ids[j] == b;
    if i < j {
        lemma_shared(w, ids, i, j);
    } else {
        lemma_shared(w, ids, j, i);
    }
    let id = w.stable_ids[a];
    let shared = shared_ids(w, ids);
    let rows = Seq::new(shared.len(), |k: int| (id_key(shared[k]), shared[k]));
    let sorted = sort_rows(rows);
    lemma_sort_rows(rows);
    rows.to_multiset_ensures();
    sorted.to_multiset_ensures();
    let k = choose|k: int| 0 <= k < shared.len() && shared[k] == id;
    assert(rows[k] == (id_key(id), id));
    assert(rows.contains(rows[k]));
    assert(rows.to_multiset().count(rows[k]) > 0);
    assert(sorted.contains(rows[k]));
    let m = choose|m: int| 0 <= m < sorted.len() && sorted[m] == rows[k];
    let duplicates = duplicate_violations(w);
    assert(row_values(sorted)[m] == id);
    assert(duplicates[m] == RuntimeInvariantErrorView::DuplicateStableId(id));
    assert(violations(w)[m] == duplicates[m]);
}

/// Whether what is wrong with a relationship is reported: of each entity with a tenant that it
/// leads somewhere from, where the target is not there or not of the kind that it should be, and
/// where the target belongs to another tenant.
pub open spec fn is_reported(
    w: WorldView,
    relation: Map<Entity, Entity>,
    kind: Set<Entity>,
    label: Seq<char>,
) -> bool {
    let reported = reconciled(w).resources.violations;
    forall|e: Entity| #[trigger]
        relation.contains_key(e) && w.tenants.contains_key(e) ==> {
            let target = relation[e];
            let there = w.tenants.contains_key(target) && kind.contains(target);
            &&& !there ==> reported.contains(
                RuntimeInvariantErrorView::InvalidRelationship {
                    entity: e,
                    relationship: label,
                    target,
                },
            )
            &&& there && w.tenants[target] != w.tenants[e] ==> reported.contains(
                RuntimeInvariantErrorView::RelationshipTenantMismatch {
                    entity: e,
                    relationship: label,
                },
            )
        }
}

/// Whether nothing is wrong with a relationship.
pub open spec fn is_sound(
    w: WorldView,
    relation: Map<Entity, Entity>,
    kind: Set<Entity>,
) -> bool {
    forall|e: Entity| #[trigger]
        relation.contains_key(e) && w.tenants.contains_key(e) ==> {
            &&& w.tenants.contains_key(relation[e])
            &&& kind.contains(relation[e])
            &&& w.tenants[relation[e]] == w.tenants[e]
        }
}

proof fn lemma_reported(
    w: WorldView,
    relation: Map<Entity, Entity>,
    kind: spec_fn(Entity) -> bool,
    members: Set<Entity>,
    label: Seq<char>,
)
    requires
        relation.dom().finite(),
        forall|e: Entity| #[trigger] kind(e) == members.contains(e),
        forall|x: RuntimeInvariantErrorView| #[trigger]
            relation_violations(w, relation, kind, label).contains(x) ==> violations(w).contains(x),
    ensures
        is_reported(w, relation, members, label),
{
    let ids = entities_of(relation.dom());
    let pick = |e: Entity| relation_violation(w, relation, kind, label, e);
    lemma_entities(relation.dom());
    assert forall|e: Entity| #[trigger]
        relation.contains_key(e) && w.tenants.contains_key(e) implies {
        let target = relation[e];
        let there = w.tenants.contains_key(target) && members.contains(target);
        &&& !there ==> violations(w).contains(
            RuntimeInvariantErrorView::InvalidRelationship {
                entity: e,
                relationship: label,
                target,
            },
        )
        &&& there && w.tenants[target] != w.tenants[e] ==> violations(w).contains(
            RuntimeInvariantErrorView::RelationshipTenantMismatch {
                entity: e,
                relationship: label,
            },
        )
    } by {
        assert(kind(relation[e]) == members.contains(relation[e]));
        if let Some(x) = relation_violation(w, relation, kind, label, e) {
            assert(ids.to_set().contains(e));
            let i = choose|i: int| 0 <= i < ids.len() && ids[i] == e;
            assert(pick(ids[i]) == Some(x));
            lemma_picked_members(ids, pick, x);
            assert(relation_violations(w, relation, kind, label).contains(x));
        }
    }
}

proof fn lemma_nothing_reported(
    w: WorldView,
    relation: Map<Entity, Entity>,
    kind: spec_fn(Entity) -> bool,
    members: Set<Entity>,
    label: Seq<char>,
)
    requires
        relation.dom().finite(),
        forall|e: Entity| #[trigger] kind(e) == members.contains(e),
        is_sound(w, relation, members),
    ensures
        relation_violations(w, relation, kind, label).len() == 0,
{
    let ids = entities_of(relation.dom());
    let pick = |e: Entity| relation_violation(w, relation, kind, label, e);
    lemma_entities(relation.dom());
    let found = relation_violations(w, relation, kind, label);
    if found.len() > 0 {
        lemma_picked_members(ids, pick, found[0]);
        assert(found.contains(found[0]));
        let i = choose|i: int| 0 <= i < ids.len() && #[trigger] pick(ids[i]) == Some(found[0]);
        assert(ids.to_set().contains(ids[i]));
        assert(relation.contains_key(ids[i]));
        assert(kind(relation[ids[i]]) == members.contains(relation[ids[i]]));
    }
}

/// Whether a world has finitely many relationships.
pub open spec fn is_finite(w: WorldView) -> bool {
    &&& w.stable_ids.dom().finite()
    &&& w.domain.uses_model.dom().finite()
    &&& w.domain.policy_for.dom().finite()
    &&& w.domain.grant_for_agent.dom().finite()
    &&& w.domain.grant_for_tool.dom().finite()
    &&& w.domain.store_grant_for_agent.dom().finite()
    &&& w.domain.store_grant_for_store.dom().finite()
    &&& w.domain.discovered_from.dom().finite()
    &&& w.runs.run_of.dom().finite()
    &&& w.runs.turn_of.dom().finite()
    &&& w.operations.operation_of.dom().finite()
    &&& w.operations.batch_of.dom().finite()
    &&& w.runs.subscription_of.dom().finite()
}

/// Whether something is among the violations of a relationship.
spec fn among(
    w: WorldView,
    relation: Map<Entity, Entity>,
    kind: spec_fn(Entity) -> bool,
    label: Seq<char>,
    x: RuntimeInvariantErrorView,
) -> bool {
    relation_violations(w, relation, kind, label).contains(x)
}

proof fn lemma_violations(w: WorldView, x: RuntimeInvariantErrorView)
    ensures
        among(w, w.domain.uses_model, |e: Entity| w.domain.models.contains_key(e), "UsesModel"@, x) ==> violations(w).contains(x),
        among(w, w.domain.policy_for, |e: Entity| w.domain.agents.contains_key(e), "PolicyFor"@, x) ==> violations(w).contains(x),
        among(w, w.domain.grant_for_agent, |e: Entity| w.domain.agents.contains_key(e), "GrantForAgent"@, x) ==> violations(w).contains(x),
        among(w, w.domain.grant_for_tool, |e: Entity| w.domain.tools.contains_key(e), "GrantForTool"@, x) ==> violations(w).contains(x),
        among(w, w.domain.store_grant_for_agent, |e: Entity| w.domain.agents.contains_key(e), "StoreGrantForAgent"@, x) ==> violations(w).contains(x),
        among(w, w.domain.store_grant_for_store, |e: Entity| w.domain.stores.contains_key(e), "StoreGrantForStore"@, x) ==> violations(w).contains(x),
        among(w, w.domain.discovered_from, |e: Entity| w.domain.sources.contains_key(e), "DiscoveredFrom"@, x) ==> violations(w).contains(x),
        among(w, w.runs.run_of, |e: Entity| w.domain.agents.contains_key(e), "RunOf"@, x) ==> violations(w).contains(x),
        among(w, w.runs.turn_of, |e: Entity| w.runs.states.contains_key(e), "TurnOf"@, x) ==> violations(w).contains(x),
        among(w, w.operations.operation_of, |e: Entity| w.runs.states.contains_key(e), "OperationOf"@, x) ==> violations(w).contains(x),
        among(w, w.operations.batch_of, |e: Entity| w.runs.states.contains_key(e), "BatchOf"@, x) ==> violations(w).contains(x),
        among(w, w.runs.subscription_of, |e: Entity| w.runs.states.contains_key(e), "SubscriptionOf"@, x) ==> violations(w).contains(x),
{
    let s0 = duplicate_violations(w);
    let r1 = relation_violations(w, w.domain.uses_model, |e: Entity| w.domain.models.contains_key(e), "UsesModel"@);
    let s1 = s0 + r1;
    lemma_in_sum(s0, r1, x);
    let r2 = relation_violations(w, w.domain.policy_for, |e: Entity| w.domain.agents.contains_key(e), "PolicyFor"@);
    let s2 = s1 + r2;
    lemma_in_sum(s1, r2, x);
    let r3 = relation_violations(w, w.domain.grant_for_agent, |e: Entity| w.domain.agents.contains_key(e), "GrantForAgent"@);
    let s3 = s2 + r3;
    lemma_in_sum(s2, r3, x);
    let r4 = relation_violations(w, w.domain.grant_for_tool, |e: Entity| w.domain.tools.contains_key(e), "GrantForTool"@);
    let s4 = s3 + r4;
    lemma_in_sum(s3, r4, x);
    let r5 = relation_violations(w, w.domain.store_grant_for_agent, |e: Entity| w.domain.agents.contains_key(e), "StoreGrantForAgent"@);
    let s5 = s4 + r5;
    lemma_in_sum(s4, r5, x);
    let r6 = relation_violations(w, w.domain.store_grant_for_store, |e: Entity| w.domain.stores.contains_key(e), "StoreGrantForStore"@);
    let s6 = s5 + r6;
    lemma_in_sum(s5, r6, x);
    let r7 = relation_violations(w, w.domain.discovered_from, |e: Entity| w.domain.sources.contains_key(e), "DiscoveredFrom"@);
    let s7 = s6 + r7;
    lemma_in_sum(s6, r7, x);
    let r8 = relation_violations(w, w.runs.run_of, |e: Entity| w.domain.agents.contains_key(e), "RunOf"@);
    let s8 = s7 + r8;
    lemma_in_sum(s7, r8, x);
    let r9 = relation_violations(w, w.runs.turn_of, |e: Entity| w.runs.states.contains_key(e), "TurnOf"@);
    let s9 = s8 + r9;
    lemma_in_sum(s8, r9, x);
    let r10 = relation_violations(w, w.operations.operation_of, |e: Entity| w.runs.states.contains_key(e), "OperationOf"@);
    let s10 = s9 + r10;
    lemma_in_sum(s9, r10, x);
    let r11 = relation_violations(w, w.operations.batch_of, |e: Entity| w.runs.states.contains_key(e), "BatchOf"@);
    let s11 = s10 + r11;
    lemma_in_sum(s10, r11, x);
    let r12 = relation_violations(w, w.runs.subscription_of, |e: Entity| w.runs.states.contains_key(e), "SubscriptionOf"@);
    let s12 = s11 + r12;
    lemma_in_sum(s11, r12, x);
    assert(violations(w) == s12);
}

/// Relationships that lead to something that is not there, is of the wrong kind or belongs to
/// another tenant are reported: those of agents, policies, grants, discovered tools, runs, turns,
/// operations, batches and subscriptions.
pub proof fn law_broken_relationships_are_reported(w: WorldView)
    requires
        is_finite(w),
    ensures
        is_reported(w, w.domain.uses_model, w.domain.models.dom(), "UsesModel"@),
        is_reported(w, w.domain.policy_for, w.domain.agents.dom(), "PolicyFor"@),
        is_reported(w, w.domain.grant_for_agent, w.domain.agents.dom(), "GrantForAgent"@),
        is_reported(w, w.domain.grant_for_tool, w.domain.tools.dom(), "GrantForTool"@),
        is_reported(w, w.domain.store_grant_for_agent, w.domain.agents.dom(), "StoreGrantForAgent"@),
        is_reported(w, w.domain.store_grant_for_store, w.domain.stores.dom(), "StoreGrantForStore"@),
        is_reported(w, w.domain.discovered_from, w.domain.sources.dom(), "DiscoveredFrom"@),
        is_reported(w, w.runs.run_of, w.domain.agents.dom(), "RunOf"@),
        is_reported(w, w.runs.turn_of, w.runs.states.dom(), "TurnOf"@),
        is_reported(w, w.operations.operation_of, w.runs.states.dom(), "OperationOf"@),
        is_reported(w, w.operations.batch_of, w.runs.states.dom(), "BatchOf"@),
        is_reported(w, w.runs.subscription_of, w.runs.states.dom(), "SubscriptionOf"@),
{
    let kind = |e: Entity| w.domain.models.contains_key(e);
    let found = relation_violations(w, w.domain.uses_model, kind, "UsesModel"@);
    assert forall|x: RuntimeInvariantErrorView| #[trigger] found.contains(x) implies violations(
        w,
    ).contains(x) by {
        lemma_violations(w, x);
        assert(among(w, w.domain.uses_model, kind, "UsesModel"@, x));
    }
    lemma_reported(w, w.domain.uses_model, kind, w.domain.models.dom(), "UsesModel"@);
    let kind = |e: Entity| w.domain.agents.contains_key(e);
    let found = relation_violations(w, w.domain.policy_for, kind, "PolicyFor"@);
    assert forall|x: RuntimeInvariantErrorView| #[trigger] found.contains(x) implies violations(
        w,
    ).contains(x) by {
        lemma_violations(w, x);
        assert(among(w, w.domain.policy_for, kind, "PolicyFor"@, x));
    }
    lemma_reported(w, w.domain.policy_for, kind, w.domain.agents.dom(), "PolicyFor"@);
    let kind = |e: Entity| w.domain.agents.contains_key(e);
    let found = relation_violations(w, w.domain.grant_for_agent, kind, "GrantForAgent"@);
    assert forall|x: RuntimeInvariantErrorView| #[trigger] found.contains(x) implies violations(
        w,
    ).contains(x) by {
        lemma_violations(w, x);
        assert(among(w, w.domain.grant_for_agent, kind, "GrantForAgent"@, x));
    }
    lemma_reported(w, w.domain.grant_for_agent, kind, w.domain.agents.dom(), "GrantForAgent"@);
    let kind = |e: Entity| w.domain.tools.contains_key(e);
    let found = relation_violations(w, w.domain.grant_for_tool, kind, "GrantForTool"@);
    assert forall|x: RuntimeInvariantErrorView| #[trigger] found.contains(x) implies violations(
        w,
    ).contains(x) by {
        lemma_violations(w, x);
        assert(among(w, w.domain.grant_for_tool, kind, "GrantForTool"@, x));
    }
    lemma_reported(w, w.domain.grant_for_tool, kind, w.domain.tools.dom(), "GrantForTool"@);
    let kind = |e: Entity| w.domain.agents.contains_key(e);
    let found = relation_violations(w, w.domain.store_grant_for_agent, kind, "StoreGrantForAgent"@);
    assert forall|x: RuntimeInvariantErrorView| #[trigger] found.contains(x) implies violations(
        w,
    ).contains(x) by {
        lemma_violations(w, x);
        assert(among(w, w.domain.store_grant_for_agent, kind, "StoreGrantForAgent"@, x));
    }
    lemma_reported(w, w.domain.store_grant_for_agent, kind, w.domain.agents.dom(), "StoreGrantForAgent"@);
    let kind = |e: Entity| w.domain.stores.contains_key(e);
    let found = relation_violations(w, w.domain.store_grant_for_store, kind, "StoreGrantForStore"@);
    assert forall|x: RuntimeInvariantErrorView| #[trigger] found.contains(x) implies violations(
        w,
    ).contains(x) by {
        lemma_violations(w, x);
        assert(among(w, w.domain.store_grant_for_store, kind, "StoreGrantForStore"@, x));
    }
    lemma_reported(w, w.domain.store_grant_for_store, kind, w.domain.stores.dom(), "StoreGrantForStore"@);
    let kind = |e: Entity| w.domain.sources.contains_key(e);
    let found = relation_violations(w, w.domain.discovered_from, kind, "DiscoveredFrom"@);
    assert forall|x: RuntimeInvariantErrorView| #[trigger] found.contains(x) implies violations(
        w,
    ).contains(x) by {
        lemma_violations(w, x);
        assert(among(w, w.domain.discovered_from, kind, "DiscoveredFrom"@, x));
    }
    lemma_reported(w, w.domain.discovered_from, kind, w.domain.sources.dom(), "DiscoveredFrom"@);
    let kind = |e: Entity| w.domain.agents.contains_key(e);
    let found = relation_violations(w, w.runs.run_of, kind, "RunOf"@);
    assert forall|x: RuntimeInvariantErrorView| #[trigger] found.contains(x) implies violations(
        w,
    ).contains(x) by {
        lemma_violations(w, x);
        assert(among(w, w.runs.run_of, kind, "RunOf"@, x));
    }
    lemma_reported(w, w.runs.run_of, kind, w.domain.agents.dom(), "RunOf"@);
    let kind = |e: Entity| w.runs.states.contains_key(e);
    let found = relation_violations(w, w.runs.turn_of, kind, "TurnOf"@);
    assert forall|x: RuntimeInvariantErrorView| #[trigger] found.contains(x) implies violations(
        w,
    ).contains(x) by {
        lemma_violations(w, x);
        assert(among(w, w.runs.turn_of, kind, "TurnOf"@, x));
    }
    lemma_reported(w, w.runs.turn_of, kind, w.runs.states.dom(), "TurnOf"@);
    let kind = |e: Entity| w.runs.states.contains_key(e);
    let found = relation_violations(w, w.operations.operation_of, kind, "OperationOf"@);
    assert forall|x: RuntimeInvariantErrorView| #[trigger] found.contains(x) implies violations(
        w,
    ).contains(x) by {
        lemma_violations(w, x);
        assert(among(w, w.operations.operation_of, kind, "OperationOf"@, x));
    }
    lemma_reported(w, w.operations.operation_of, kind, w.runs.states.dom(), "OperationOf"@);
    let kind = |e: Entity| w.runs.states.contains_key(e);
    let found = relation_violations(w, w.operations.batch_of, kind, "BatchOf"@);
    assert forall|x: RuntimeInvariantErrorView| #[trigger] found.contains(x) implies violations(
        w,
    ).contains(x) by {
        lemma_violations(w, x);
        assert(among(w, w.operations.batch_of, kind, "BatchOf"@, x));
    }
    lemma_reported(w, w.operations.batch_of, kind, w.runs.states.dom(), "BatchOf"@);
    let kind = |e: Entity| w.runs.states.contains_key(e);
    let found = relation_violations(w, w.runs.subscription_of, kind, "SubscriptionOf"@);
    assert forall|x: RuntimeInvariantErrorView| #[trigger] found.contains(x) implies violations(
        w,
    ).contains(x) by {
        lemma_violations(w, x);
        assert(among(w, w.runs.subscription_of, kind, "SubscriptionOf"@, x));
    }
    lemma_reported(w, w.runs.subscription_of, kind, w.runs.states.dom(), "SubscriptionOf"@);
}

/// A world in which no id is shared and no relationship is broken is reported as sound.
pub proof fn law_sound_worlds_report_nothing(w: WorldView)
    requires
        is_finite(w),
        forall|a: Entity, b: Entity|
            #![trigger w.stable_ids.contains_key(a), w.stable_ids.contains_key(b)]
            w.stable_ids.contains_key(a) && w.stable_ids.contains_key(b) && a != b
                ==> w.stable_ids[a] != w.stable_ids[b],
        is_sound(w, w.domain.uses_model, w.domain.models.dom()),
        is_sound(w, w.domain.policy_for, w.domain.agents.dom()),
        is_sound(w, w.domain.grant_for_agent, w.domain.agents.dom()),
        is_sound(w, w.domain.grant_for_tool, w.domain.tools.dom()),
        is_sound(w, w.domain.store_grant_for_agent, w.domain.agents.dom()),
        is_sound(w, w.domain.store_grant_for_store, w.domain.stores.dom()),
        is_sound(w, w.domain.discovered_from, w.domain.sources.dom()),
        is_sound(w, w.runs.run_of, w.domain.agents.dom()),
        is_sound(w, w.runs.turn_of, w.runs.states.dom()),
        is_sound(w, w.operations.operation_of, w.runs.states.dom()),
        is_sound(w, w.operations.batch_of, w.runs.states.dom()),
        is_sound(w, w.runs.subscription_of, w.runs.states.dom()),
    ensures
        reconciled(w).resources.violations.len() == 0,
{
    let ids = entities_of(w.stable_ids.dom());
    lemma_entities(w.stable_ids.dom());
    assert forall|i: int, j: int| 0 <= i < j < ids.len() implies w.stable_ids[
        #[trigger] ids[i]
    ] != w.stable_ids[#[trigger] ids[j]] by {
        assert(ids.to_set().contains(ids[i]) && ids.to_set().contains(ids[j]));
        assert(w.stable_ids.contains_key(ids[i]) && w.stable_ids.contains_key(ids[j]));
    }
    lemma_none_shared(w, ids);
    let shared = shared_ids(w, ids);
    lemma_sort_rows(Seq::new(shared.len(), |i: int| (id_key(shared[i]), shared[i])));
    assert(duplicate_violations(w).len() == 0);
    lemma_nothing_reported(w, w.domain.uses_model, |e: Entity| w.domain.models.contains_key(e), w.domain.models.dom(), "UsesModel"@);
    lemma_nothing_reported(w, w.domain.policy_for, |e: Entity| w.domain.agents.contains_key(e), w.domain.agents.dom(), "PolicyFor"@);
    lemma_nothing_reported(w, w.domain.grant_for_agent, |e: Entity| w.domain.agents.contains_key(e), w.domain.agents.dom(), "GrantForAgent"@);
    lemma_nothing_reported(w, w.domain.grant_for_tool, |e: Entity| w.domain.tools.contains_key(e), w.domain.tools.dom(), "GrantForTool"@);
    lemma_nothing_reported(w, w.domain.store_grant_for_agent, |e: Entity| w.domain.agents.contains_key(e), w.domain.agents.dom(), "StoreGrantForAgent"@);
    lemma_nothing_reported(w, w.domain.store_grant_for_store, |e: Entity| w.domain.stores.contains_key(e), w.domain.stores.dom(), "StoreGrantForStore"@);
    lemma_nothing_reported(w, w.domain.discovered_from, |e: Entity| w.domain.sources.contains_key(e), w.domain.sources.dom(), "DiscoveredFrom"@);
    lemma_nothing_reported(w, w.runs.run_of, |e: Entity| w.domain.agents.contains_key(e), w.domain.agents.dom(), "RunOf"@);
    lemma_nothing_reported(w, w.runs.turn_of, |e: Entity| w.runs.states.contains_key(e), w.runs.states.dom(), "TurnOf"@);
    lemma_nothing_reported(w, w.operations.operation_of, |e: Entity| w.runs.states.contains_key(e), w.runs.states.dom(), "OperationOf"@);
    lemma_nothing_reported(w, w.operations.batch_of, |e: Entity| w.runs.states.contains_key(e), w.runs.states.dom(), "BatchOf"@);
    lemma_nothing_reported(w, w.runs.subscription_of, |e: Entity| w.runs.states.contains_key(e), w.runs.states.dom(), "SubscriptionOf"@);
}

} // verus!
