//! Preparation of store operations for queued runs.

use vstd::prelude::*;

use crate::column::{entities_of, sources_of, Entity};
use crate::effect::{
    StoreDecision, StoreDecisionView, StoreEffectInput, StoreEffectInputView, StoreOperation,
    StoreOperationView,
};
use crate::fold::{lemma_fold_next, lemma_picked_next, picked};
use crate::identity::TenantId;
use crate::run::{RunRecord, RunRecordView, RunState, RunStateView};
use crate::sorting::{sort_rows, sort_values, KeyPart, KeyPartView, KeyView};
use crate::world::{World, WorldView};

verus! {

/// The store that a grant offers to a tenant, with the key by which it is chosen; nothing where
/// the grant or its store does not qualify.
pub open spec fn store_candidate(
    w: WorldView,
    tenant: Seq<char>,
    kind: Seq<char>,
    grant: Entity,
) -> Option<(KeyView, StoreDecisionView)> {
    let store = w.domain.store_grant_for_store[grant];
    if w.stable_ids.contains_key(grant) && w.tenants.contains_key(grant)
        && w.domain.store_grants.contains_key(grant) && w.domain.store_grant_for_store.contains_key(
        grant,
    ) && w.domain.store_grants[grant].enabled && w.tenants[grant] == tenant
        && w.stable_ids.contains_key(store) && w.tenants.contains_key(store)
        && w.domain.stores.contains_key(store) && w.tenants[store] == tenant
        && !w.domain.stores[store].retired && w.domain.stores[store].kind == kind {
        Some(
            (
                seq![
                    KeyPartView::Number(w.domain.store_grants[grant].order as u64),
                    KeyPartView::Text(w.stable_ids[grant]),
                ],
                StoreDecisionView {
                    store_entity: store,
                    store_id: w.stable_ids[store],
                    revision: w.domain.stores[store].revision,
                    kind,
                    tenant,
                },
            ),
        )
    } else {
        None
    }
}

/// The store of the given kind that an agent's run uses: of those granted, the one whose grant
/// has the least order, and of these the least id.
pub open spec fn selected_store(
    w: WorldView,
    agent: Entity,
    tenant: Seq<char>,
    kind: Seq<char>,
) -> Option<StoreDecisionView> {
    let rows = sort_rows(
        picked(
            sources_of(w.domain.store_grant_for_agent, agent),
            |grant: Entity| store_candidate(w, tenant, kind, grant),
        ),
    );
    if rows.len() > 0 {
        Some(rows[0].1)
    } else {
        None
    }
}

/// The world in which a run waits for a store operation.
pub open spec fn with_store_wait(
    w: WorldView,
    run: Entity,
    record: RunRecordView,
    input: StoreEffectInputView,
) -> WorldView {
    let operation = w.fresh();
    w.with_store_operation(run, input).with_run_record(run, record).with_run_state(
        run,
        RunStateView::WaitingStore { operation },
    ).progressed()
}

/// Whether a run is queued for an agent.
pub open spec fn run_queued(w: WorldView, run: Entity) -> bool {
    &&& w.tenants.contains_key(run)
    &&& w.runs.run_of.contains_key(run)
    &&& w.runs.records.contains_key(run)
    &&& w.runs.states.contains_key(run)
    &&& w.runs.states[run] is Queued
}

/// The world after the conversation of a queued run was looked up.
pub open spec fn prepare_memory(w: WorldView, run: Entity) -> WorldView {
    let record = w.runs.records[run];
    let store = selected_store(
        w,
        w.runs.run_of[run],
        w.tenants[run],
        "conversation-memory"@,
    );
    match (record.conversation, store) {
        (Some(conversation), Some(decision)) => with_store_wait(
            w,
            run,
            RunRecordView { memory_store: Some(decision), ..record },
            StoreEffectInputView {
                decision,
                operation: StoreOperationView::LoadConversation { conversation },
            },
        ),
        _ => w.with_run_record(
            run,
            RunRecordView { memory_loaded: true, ..record },
        ).progressed(),
    }
}

/// The world after the context documents of a queued run were looked up.
pub open spec fn prepare_retrieval(w: WorldView, run: Entity) -> WorldView {
    let record = w.runs.records[run];
    let agent = w.runs.run_of[run];
    let store = selected_store(w, agent, w.tenants[run], "vector-search"@);
    if w.domain.retrieval_requirements.contains_key(agent) && store is Some {
        with_store_wait(
            w,
            run,
            RunRecordView { retrieval_store: store, ..record },
            StoreEffectInputView {
                decision: store->0,
                operation: StoreOperationView::Retrieve {
                    query: match record.prompt_text {
                        Some(text) => text,
                        None => Seq::empty(),
                    },
                    limit: w.domain.retrieval_requirements[agent].limit,
                },
            },
        )
    } else {
        w.with_run_record(run, RunRecordView { retrieval_loaded: true, ..record }).progressed()
    }
}

/// The world after the store work of one queued run was prepared.
pub open spec fn prepare_store_step(w: WorldView, run: Entity) -> WorldView {
    if !run_queued(w, run) {
        w
    } else if !w.runs.records[run].memory_loaded {
        prepare_memory(w, run)
    } else if !w.runs.records[run].retrieval_loaded {
        prepare_retrieval(w, run)
    } else {
        w
    }
}

/// The world after the store work of every queued run was prepared.
pub open spec fn prepare_stores(w: WorldView) -> WorldView {
    entities_of(w.runs.states.dom()).fold_left(
        w,
        |w: WorldView, e: Entity| prepare_store_step(w, e),
    )
}

fn offer_store(world: &World, tenant: &TenantId, kind: &String, grant: Entity) -> (r: Option<
    (Vec<KeyPart>, StoreDecision),
>)
    ensures
        r.deep_view() == store_candidate(world@, tenant@, kind@, grant),
{
    let order: u32 = match world.domain.store_grants.get(grant) {
        Some(access) => {
            if !access.enabled {
                return None;
            }
            access.order
        },
        None => {
            return None;
        },
    };
    let store = match world.domain.store_grant_for_store.get(grant) {
        Some(store) => *store,
        None => {
            return None;
        },
    };
    match (world.tenants.get(grant), world.tenants.get(store)) {
        (Some(own), Some(target)) => {
            if !own.same(tenant) || !target.same(tenant) {
                return None;
            }
        },
        _ => {
            return None;
        },
    }
    match (
        world.stable_ids.get(grant),
        world.stable_ids.get(store),
        world.domain.stores.get(store),
    ) {
        (Some(grant_id), Some(store_id), Some(capability)) => {
            if capability.retired || capability.kind != *kind {
                return None;
            }
            let key = vec![KeyPart::Number(order as u64), KeyPart::Text(grant_id.text())];
            proof {
                assert(key.deep_view() =~= seq![
                    KeyPartView::Number(order as u64),
                    KeyPartView::Text(grant_id@),
                ]);
            }
            Some(
                (
                    key,
                    StoreDecision {
                        store_entity: store,
                        store_id: store_id.clone(),
                        revision: capability.revision,
                        kind: kind.clone(),
                        tenant: tenant.clone(),
                    },
                ),
            )
        },
        _ => None,
    }
}

/// Chooses the store of the given kind for a run of an agent.
pub fn select_store(world: &World, agent: Entity, tenant: &TenantId, kind: &String) -> (r: Option<
    StoreDecision,
>)
    ensures
        r.deep_view() == selected_store(world@, agent, tenant@, kind@),
{
    broadcast use crate::fold::group_fold;

    let ids = world.domain.store_grant_for_agent.sources(agent);
    let ghost pick = |grant: Entity| store_candidate(world@, tenant@, kind@, grant);
    let mut rows: Vec<(Vec<KeyPart>, StoreDecision)> = Vec::new();
    let mut i: usize = 0;
    assert(rows.deep_view() =~= Seq::empty());
    while i < ids.len()
        invariant
            i <= ids@.len(),
            pick == (|grant: Entity| store_candidate(world@, tenant@, kind@, grant)),
            rows.deep_view() == picked(ids@.take(i as int), pick),
        decreases ids@.len() - i,
    {
        proof {
            lemma_picked_next(ids@, i as int, pick);
        }
        let ghost before = rows.deep_view();
        if let Some(row) = offer_store(world, tenant, kind, ids[i]) {
            rows.push(row);
            assert(rows.deep_view() =~= before.push(row.deep_view()));
        }
        i = i + 1;
    }
    let ghost sorted = sort_rows(rows.deep_view());
    let mut decisions = sort_values(rows);
    proof {
        assert(decisions.deep_view().len() == sorted.len());
        if sorted.len() > 0 {
            assert(decisions@[0]@ == decisions.deep_view()[0]);
        }
    }
    if decisions.len() > 0 {
        Some(decisions[0].clone())
    } else {
        None
    }
}

fn wait_for_store(world: &mut World, run: Entity, record: RunRecord, input: StoreEffectInput)
    ensures
        final(world)@ == with_store_wait(old(world)@, run, record@, input@),
{
    let operation = world.spawn_store_operation(run, input);
    world.set_run_record(run, record);
    world.set_run_state(run, RunState::WaitingStore { operation });
    world.mark_progress();
}

/// Prepares the store work of one run, if it is queued.
pub fn prepare_store_operation(world: &mut World, run: Entity)
    ensures
        final(world)@ == prepare_store_step(old(world)@, run),
{
    let tenant = match world.tenants.get(run) {
        Some(tenant) => tenant.clone(),
        None => {
            return;
        },
    };
    let agent = match world.runs.run_of.get(run) {
        Some(agent) => *agent,
        None => {
            return;
        },
    };
    match world.runs.states.get(run) {
        Some(RunState::Queued) => {},
        _ => {
            return;
        },
    }
    let mut record = match world.runs.records.get(run) {
        Some(record) => record.clone(),
        None => {
            return;
        },
    };
    if !record.memory_loaded {
        let decision = select_store(world, agent, &tenant, &"conversation-memory".to_owned());
        match (&record.conversation, decision) {
            (Some(conversation), Some(decision)) => {
                let input = StoreEffectInput {
                    decision: decision.clone(),
                    operation: StoreOperation::LoadConversation {
                        conversation: conversation.clone(),
                    },
                };
                record.memory_store = Some(decision);
                wait_for_store(world, run, record, input);
            },
            _ => {
                record.memory_loaded = true;
                world.set_run_record(run, record);
                world.mark_progress();
            },
        }
        return;
    }
    if !record.retrieval_loaded {
        let decision = select_store(world, agent, &tenant, &"vector-search".to_owned());
        if let Some(requirement) = world.domain.retrieval_requirements.get(agent) {
            if let Some(decision) = decision {
                let query = match &record.prompt_text {
                    Some(text) => text.clone(),
                    None => String::new(),
                };
                let input = StoreEffectInput {
                    decision: decision.clone(),
                    operation: StoreOperation::Retrieve { query, limit: requirement.limit },
                };
                record.retrieval_store = Some(decision);
                wait_for_store(world, run, record, input);
                return;
            }
        }
        record.retrieval_loaded = true;
        world.set_run_record(run, record);
        world.mark_progress();
    }
}

/// Prepares the store work of every queued run.
pub fn prepare_store_operations(world: &mut World)
    ensures
        final(world)@ == prepare_stores(old(world)@),
{
    broadcast use crate::fold::group_fold;

    let ids = world.runs.states.entities();
    let ghost start = world@;
    let ghost step = |w: WorldView, e: Entity| prepare_store_step(w, e);
    let mut i: usize = 0;
    while i < ids.len()
        invariant
            i <= ids@.len(),
            step == (|w: WorldView, e: Entity| prepare_store_step(w, e)),
            world@ == ids@.take(i as int).fold_left(start, step),
        decreases ids@.len() - i,
    {
        proof {
            lemma_fold_next(ids@, i as int, start, step);
        }
        prepare_store_operation(world, ids[i]);
        i = i + 1;
    }
}

} // verus!
