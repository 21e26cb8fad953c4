//! What a pass of the schedule consists of, and what is said of a run between passes.

use vstd::prelude::*;

use crate::apply::{apply_messages, cancel_all, expire_all, CancelView};
use crate::column::{lemma_sources, sources_of, Entity};
use crate::commit_model::{commit_models, Reasons};
use crate::commit_store::commit_stores;
use crate::commit_tools::commit_batches;
use crate::control::{control_text, RunControl};
use crate::debug::{
    explained, inspection_fault, operation_rank, over, over_in, pending_of, stalled, RunDebugError,
    StalledReasonView,
};
use crate::discovery::reconcile_discoveries;
use crate::dispatch::{
    discovery_requests, dispatch_requests, model_requests, store_requests, tool_requests,
};
use crate::fold::{lemma_picked_members, picked};
use crate::ingest::{ingest_all, observe_all, ticked, with_messages};
use crate::policy_stage::apply_policies;
use crate::prepare_model::prepare_models;
use crate::prepare_store::prepare_stores;
use crate::publish::{cleanup_all, publish_all, retire_all, world_metrics};
use crate::reconcile::reconciled;
use crate::run::RunHandle;
use crate::schedule::{after_stage, schedule_pass, RigSet, ScheduleView};
use crate::sorting::{key_le, lemma_sort_rows, row_values, sort_rows, KeyPartView};
use crate::streams::StreamingView;
use crate::text::{lemma_text_le_reflexive, text_le};
use crate::world::WorldView;

verus! {

/// A pass takes in what has come, brings the index up to date, prepares requests, applies policies,
/// sends work out, takes answers in, commits them, publishes outcomes and cleans up, in this order.
pub proof fn law_stages_run_in_order(s: ScheduleView, reasons: Reasons)
    ensures
        ({
            let taken = after_stage(RigSet::Ingest, s, reasons);
            let known = after_stage(RigSet::Reconcile, taken, reasons);
            let prepared = after_stage(RigSet::Prepare, known, reasons);
            let judged = after_stage(RigSet::Policy, prepared, reasons);
            let sent = after_stage(RigSet::Dispatch, judged, reasons);
            let answered = after_stage(RigSet::Apply, sent, reasons);
            let committed = after_stage(RigSet::Commit, answered, reasons);
            let published = after_stage(RigSet::Publish, committed, reasons);
            schedule_pass(s, reasons) == after_stage(RigSet::Cleanup, published, reasons)
        }),
{
    reveal(schedule_pass);
    let taken = after_stage(RigSet::Ingest, s, reasons);
    let known = after_stage(RigSet::Reconcile, taken, reasons);
    let prepared = after_stage(RigSet::Prepare, known, reasons);
    let judged = after_stage(RigSet::Policy, prepared, reasons);
    let sent = after_stage(RigSet::Dispatch, judged, reasons);
    let answered = after_stage(RigSet::Apply, sent, reasons);
    lemma_nothing_to_persist(after_stage(RigSet::Commit, answered, reasons), reasons);
}

proof fn lemma_nothing_to_persist(s: ScheduleView, reasons: Reasons)
    ensures
        after_stage(RigSet::Persist, s, reasons) == s,
{
    reveal(after_stage);
}

/// Taking in moves the clock on, carries out the commands, notes what was acknowledged and puts the
/// messages of executors where they wait to be applied, and leaves none of them behind.
pub proof fn law_ingest_takes_everything_in(s: ScheduleView, reasons: Reasons)
    ensures
        ({
            let t = after_stage(RigSet::Ingest, s, reasons);
            let carried = ingest_all(ticked(s.world), s.handle.commands.items);
            let noted = observe_all(carried, s.handle.observations);
            &&& t.world == with_messages(noted, s.effects.ingress.items)
            &&& t.handle.commands.items.len() == 0
            &&& t.handle.observations.len() == 0
            &&& t.effects.ingress.items.len() == 0
            &&& t.handle.streams == s.handle.streams
            &&& t.effects.requests == s.effects.requests
            &&& t.effects.cancellations == s.effects.cancellations
        }),
{
    reveal(after_stage);
}

/// Reconciling takes over what sources have made known before the index is brought up to date;
/// preparing looks up conversations and documents before models are asked; committing goes through
/// stores, then models, then batches. None of these touches what waits outside the world.
pub proof fn law_inner_stages_change_the_world(s: ScheduleView, reasons: Reasons)
    ensures
        after_stage(RigSet::Reconcile, s, reasons) == (ScheduleView {
            world: reconciled(reconcile_discoveries(s.world)),
            ..s
        }),
        after_stage(RigSet::Prepare, s, reasons) == (ScheduleView {
            world: prepare_models(prepare_stores(s.world)),
            ..s
        }),
        after_stage(RigSet::Policy, s, reasons) == (ScheduleView {
            world: apply_policies(s.world),
            ..s
        }),
        after_stage(RigSet::Commit, s, reasons) == (ScheduleView {
            world: commit_batches(commit_models(commit_stores(s.world), reasons)),
            ..s
        }),
{
    reveal(after_stage);
}

/// Sending out offers models, then tools, then discoveries, then stores. Taking answers in applies
/// what waits before deadlines are looked at. Publishing counts afterwards. Cleaning up cancels
/// what belongs to cancelled runs, then removes runs, then tools.
pub proof fn law_outer_stages_reach_outside(s: ScheduleView, reasons: Reasons)
    ensures
        ({
            let t = after_stage(RigSet::Dispatch, s, reasons);
            let a = dispatch_requests(s.world, s.effects.requests, model_requests(s.world));
            let b = dispatch_requests(a.world, a.outbox, tool_requests(a.world));
            let c = dispatch_requests(b.world, b.outbox, discovery_requests(b.world));
            let d = dispatch_requests(c.world, c.outbox, store_requests(c.world));
            &&& t.world == d.world
            &&& t.effects.requests == d.outbox
            &&& t.handle == s.handle
        }),
        ({
            let t = after_stage(RigSet::Apply, s, reasons);
            let applied = apply_messages(
                (StreamingView { world: s.world, streams: s.handle.streams }),
            );
            &&& t.world == expire_all(applied.world)
            &&& t.handle.streams == applied.streams
            &&& t.effects == s.effects
        }),
        ({
            let t = after_stage(RigSet::Publish, s, reasons);
            let published = publish_all(
                (StreamingView { world: s.world, streams: s.handle.streams }),
            );
            &&& t.world.runs == published.world.runs
            &&& t.world.operations == published.world.operations
            &&& t.world.resources.metrics == world_metrics(published.world)
            &&& t.handle.streams == published.streams
        }),
        ({
            let t = after_stage(RigSet::Cleanup, s, reasons);
            let cancelled = cancel_all(
                (CancelView { world: s.world, outbox: s.effects.cancellations }),
            );
            let cleaned = cleanup_all(
                (StreamingView { world: cancelled.world, streams: s.handle.streams }),
            );
            &&& t.effects.cancellations == cancelled.outbox
            &&& t.world == retire_all(cleaned.world)
            &&& t.handle.streams == cleaned.streams
        }),
{
    reveal(after_stage);
}

/// Whether an operation is described as it is: by its id, its generation and its phase.
pub open spec fn is_described(
    w: WorldView,
    e: Entity,
    row: crate::debug::PendingOperationDebugView,
) -> bool {
    &&& w.operations.kinds.contains_key(e)
    &&& w.operations.states.contains_key(e)
    &&& row.generation == w.operations.states[e].generation
    &&& w.stable_ids.contains_key(e) ==> row.id == w.stable_ids[e]
    &&& row.phase == crate::debug_form::operation_phase_debug(w.operations.states[e].phase)
}

/// What a run waits for is said by its control, then by its children, then by its state: that it is
/// ready, the operation that it waits for, how many operations of its batch are over, or that it is
/// over itself.
pub proof fn law_stalled_runs_say_what_they_wait_for(w: WorldView, run: Entity)
    requires
        w.controls.parents.dom().finite(),
        w.runs.states.contains_key(run),
    ensures
        ({
            let said = stalled(w, run);
            let held = w.controls.controls.contains_key(run) && w.controls.controls[run]
                != RunControl::Running;
            let parent = w.controls.waiting_for_children.contains_key(run) && exists|e: Entity|
                #[trigger] w.controls.parents.contains_key(e) && w.controls.parents[e] == run;
            let state = w.runs.states[run];
            &&& held ==> said == Ok::<StalledReasonView, RunDebugError>(
                StalledReasonView::Paused(control_text(w.controls.controls[run])),
            )
            &&& !held && parent ==> said is Ok && said->Ok_0 is WaitingForChildren
            &&& !held && !parent ==> {
                &&& state is Queued ==> said == Ok::<StalledReasonView, RunDebugError>(
                    StalledReasonView::Ready,
                )
                &&& state is WaitingModel && said is Ok ==> said->Ok_0 is WaitingForEffect
                    && is_described(
                    w,
                    state->WaitingModel_operation,
                    said->Ok_0->WaitingForEffect_0,
                )
                &&& state is WaitingStore && said is Ok ==> said->Ok_0 is WaitingForEffect
                    && is_described(
                    w,
                    state->WaitingStore_operation,
                    said->Ok_0->WaitingForEffect_0,
                )
                &&& state is WaitingModel && said is Err ==> said
                    == Err::<StalledReasonView, RunDebugError>(RunDebugError::StaleOperation) && !(
                w.operations.kinds.contains_key(state->WaitingModel_operation)
                    && w.operations.states.contains_key(state->WaitingModel_operation))
                &&& state is WaitingStore && said is Err ==> said
                    == Err::<StalledReasonView, RunDebugError>(RunDebugError::StaleOperation) && !(
                w.operations.kinds.contains_key(state->WaitingStore_operation)
                    && w.operations.states.contains_key(state->WaitingStore_operation))
                &&& state is WaitingTools && w.operations.batches.contains_key(
                    state->WaitingTools_batch,
                ) ==> said is Ok && said->Ok_0 is WaitingForToolBatch && said->Ok_0->expected
                    == w.operations.batches[state->WaitingTools_batch].expected
                &&& state is Completed ==> said == Ok::<StalledReasonView, RunDebugError>(
                    StalledReasonView::Terminal("completed"@),
                )
                &&& state is Failed ==> said == Ok::<StalledReasonView, RunDebugError>(
                    StalledReasonView::Terminal("failed"@),
                )
                &&& state is Cancelled ==> said == Ok::<StalledReasonView, RunDebugError>(
                    StalledReasonView::Terminal("cancelled"@),
                )
            }
        }),
{
    let children = sources_of(w.controls.parents, run);
    if children.len() > 0 {
        assert(children.contains(children[0]));
        lemma_sources(w.controls.parents, run, children[0]);
        assert(w.controls.parents.contains_key(children[0]));
    }
    if exists|e: Entity| #[trigger]
        w.controls.parents.contains_key(e) && w.controls.parents[e] == run {
        let e = choose|e: Entity| #[trigger]
            w.controls.parents.contains_key(e) && w.controls.parents[e] == run;
        lemma_sources(w.controls.parents, run, e);
    }
}

/// Of a batch exactly the operations that are settled or cancelled count as over.
pub proof fn law_settled_operations_are_over(w: WorldView, batch: Entity, e: Entity)
    requires
        w.operations.operation_of_batch.dom().finite(),
    ensures
        over_in(w, batch).contains(e) <==> {
            &&& w.operations.operation_of_batch.contains_key(e)
            &&& w.operations.operation_of_batch[e] == batch
            &&& w.operations.states.contains_key(e)
            &&& w.operations.states[e].phase is Settled || w.operations.states[e].phase is Cancelled
        },
{
    let ids = sources_of(w.operations.operation_of_batch, batch);
    let pick = |e: Entity| over(w, e);
    lemma_picked_members(ids, pick, e);
    lemma_sources(w.operations.operation_of_batch, batch, e);
    if ids.contains(e) {
        let i = choose|i: int| 0 <= i < ids.len() && ids[i] == e;
        assert(pick(ids[i]) == over(w, e));
    }
    if over_in(w, batch).contains(e) {
        let i = choose|i: int| 0 <= i < ids.len() && #[trigger] pick(ids[i]) == Some(e);
        assert(ids[i] == e);
    }
}

/// An explanation of a run holds its identity, its agent and tenant, its turns and its limit, and
/// its operations in the order of their ids. A run of another runtime, or one that is gone, is not
/// explained.
pub proof fn law_explanations_describe_the_run(
    w: WorldView,
    run: Entity,
    runtime_id: u64,
    handle: RunHandle,
)
    requires
        w.operations.operation_of.dom().finite(),
    ensures
        handle.runtime_id != runtime_id ==> inspection_fault(w, runtime_id, handle) == Some(
            RunDebugError::ForeignRuntime,
        ),
        handle.runtime_id == runtime_id && !w.runs.states.contains_key(handle.entity)
            ==> inspection_fault(w, runtime_id, handle) == Some(RunDebugError::StaleRun),
        handle.runtime_id == runtime_id && w.runs.states.contains_key(handle.entity)
            ==> inspection_fault(w, runtime_id, handle) is None,
        explained(w, run) is Ok ==> {
            let x = explained(w, run)->Ok_0;
            &&& x.run_id == w.stable_ids[run]
            &&& x.agent_id == w.stable_ids[w.runs.run_of[run]]
            &&& x.tenant == w.tenants[run]
            &&& x.next_turn == w.runs.records[run].next_turn
            &&& x.model_calls == w.runs.records[run].next_turn
            &&& x.max_model_calls == w.runs.records[run].max_model_calls
            &&& x.operations == pending_of(w, run)
            &&& stalled(w, run) == Ok::<StalledReasonView, RunDebugError>(x.stalled_reason)
        },
        forall|i: int, j: int|
            0 <= i < j < pending_of(w, run).len() ==> text_le(
                (#[trigger] pending_of(w, run)[i]).id,
                (#[trigger] pending_of(w, run)[j]).id,
            ),
        forall|e: Entity| #[trigger]
            w.operations.operation_of.contains_key(e) && w.operations.operation_of[e] == run
                && w.operations.kinds.contains_key(e) && w.operations.states.contains_key(e)
                ==> exists|k: int|
                0 <= k < pending_of(w, run).len() && is_described(
                    w,
                    e,
                    #[trigger] pending_of(w, run)[k],
                ),
{
    let ids = sources_of(w.operations.operation_of, run);
    let pick = |e: Entity| operation_rank(w, e);
    let rows = picked(ids, pick);
    let sorted = sort_rows(rows);
    let shown = pending_of(w, run);
    assert(shown == row_values(sorted));
    lemma_sort_rows(rows);
    rows.to_multiset_ensures();
    sorted.to_multiset_ensures();
    assert forall|k: int| 0 <= k < sorted.len() implies (#[trigger] sorted[k]).0 == seq![
        KeyPartView::Text(shown[k].id),
    ] by {
        assert(sorted.contains(sorted[k]));
        assert(sorted.to_multiset().count(sorted[k]) > 0);
        assert(rows.contains(sorted[k]));
        lemma_picked_members(ids, pick, sorted[k]);
        let i = choose|i: int| 0 <= i < ids.len() && #[trigger] pick(ids[i]) == Some(sorted[k]);
        assert(operation_rank(w, ids[i]) == Some(sorted[k]));
    }
    assert forall|i: int, j: int| 0 <= i < j < shown.len() implies text_le(
        (#[trigger] shown[i]).id,
        (#[trigger] shown[j]).id,
    ) by {
        assert(key_le(sorted[i].0, sorted[j].0));
        reveal_with_fuel(key_le, 2);
        assert(sorted[i].0[0] == KeyPartView::Text(shown[i].id));
        assert(sorted[j].0[0] == KeyPartView::Text(shown[j].id));
        lemma_text_le_reflexive(shown[i].id);
    }
    assert forall|e: Entity| #[trigger]
        w.operations.operation_of.contains_key(e) && w.operations.operation_of[e] == run
            && w.operations.kinds.contains_key(e) && w.operations.states.contains_key(
            e,
        ) implies exists|k: int|
        0 <= k < shown.len() && is_described(w, e, #[trigger] shown[k]) by {
        lemma_sources(w.operations.operation_of, run, e);
        let m = choose|m: int| 0 <= m < ids.len() && ids[m] == e;
        let row = operation_rank(w, e)->0;
        assert(pick(ids[m]) == Some(row));
        lemma_picked_members(ids, pick, row);
        assert(rows.contains(row));
        assert(rows.to_multiset().count(row) > 0);
        assert(sorted.contains(row));
        let k = choose|k: int| 0 <= k < sorted.len() && sorted[k] == row;
        assert(is_described(w, e, shown[k]));
    }
}

} // verus!
