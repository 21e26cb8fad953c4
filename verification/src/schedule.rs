//! The schedule: stages of systems in a fixed order.

use vstd::prelude::*;

use crate::apply::{
    apply_effect_ingress, apply_messages, cancel_all, expire_all, expire_effects,
    propagate_cancellation, CancelView,
};
use crate::commit_model::{commit_model_operations, commit_models, Reasons};
use crate::commit_store::{commit_store_operations, commit_stores};
use crate::commit_tools::{commit_batches, commit_tool_batches};
use crate::discovery::{reconcile_discoveries, reconcile_discovery_operations};
use crate::dispatch::{
    discovery_requests, dispatch_discovery_operations, dispatch_model_operations,
    dispatch_requests, dispatch_store_operations, dispatch_tool_operations, model_requests,
    store_requests, tool_requests,
};
use crate::handle::{EffectIo, EffectIoView, RuntimeHandle, RuntimeHandleView};
use crate::ingest::{
    advance_runtime_clock, ingest_all, ingest_commands, ingest_completions, ingest_observations,
    observe_all, ticked, with_messages,
};
use crate::policy_stage::{apply_builtin_policy, apply_policies};
use crate::prepare_model::{prepare_model_operations, prepare_models};
use crate::prepare_store::{prepare_store_operations, prepare_stores};
use crate::publish::{
    cleanup_all, cleanup_observed_runs, cleanup_retired_tools, measured, publish_all,
    publish_terminal_streams, retire_all, update_runtime_metrics,
};
use crate::reconcile::{reconcile_stable_ids, reconciled};
use crate::streams::StreamingView;
use crate::world::{World, WorldView};

verus! {

/// Stages of the schedule, in the order in which a pass runs them.
#[derive(Clone, Copy, Debug, PartialEq, Eq, Structural)]
pub enum RigSet {
    /// Takes in commands, observations and completions.
    Ingest,
    /// Applies discovered capabilities and checks identities.
    Reconcile,
    /// Prepares store and model operations.
    Prepare,
    /// Applies policy to prepared work.
    Policy,
    /// Hands prepared work to executors.
    Dispatch,
    /// Applies completions and deltas, and times out effects.
    Apply,
    /// Commits settled operations.
    Commit,
    /// Reserved for the persistence of a host.
    Persist,
    /// Publishes outcomes and metrics.
    Publish,
    /// Cancels, releases and retires what is no longer needed.
    Cleanup,
}

/// A world with both sides of its runtime.
#[verifier::ext_equal]
pub struct ScheduleView {
    pub world: WorldView,
    pub handle: RuntimeHandleView,
    pub effects: EffectIoView,
}

/// What the ingest stage makes of a world and its runtime.
pub open spec fn ingest_stage(s: ScheduleView) -> ScheduleView {
    let w = ingest_all(ticked(s.world), s.handle.commands.items);
    let w = observe_all(w, s.handle.observations);
    let w = with_messages(w, s.effects.ingress.items);
    ScheduleView {
        world: w,
        handle: RuntimeHandleView {
            commands: s.handle.commands.drained(),
            observations: Seq::empty(),
            ..s.handle
        },
        effects: EffectIoView { ingress: s.effects.ingress.drained(), ..s.effects },
    }
}

/// What the dispatch stage makes of a world and its runtime.
pub open spec fn dispatch_stage(s: ScheduleView) -> ScheduleView {
    let d = dispatch_requests(s.world, s.effects.requests, model_requests(s.world));
    let d = dispatch_requests(d.world, d.outbox, tool_requests(d.world));
    let d = dispatch_requests(d.world, d.outbox, discovery_requests(d.world));
    let d = dispatch_requests(d.world, d.outbox, store_requests(d.world));
    ScheduleView {
        world: d.world,
        effects: EffectIoView { requests: d.outbox, ..s.effects },
        ..s
    }
}

/// What the apply stage makes of a world and its runtime.
pub open spec fn apply_stage(s: ScheduleView) -> ScheduleView {
    let applied = apply_messages(
        (StreamingView { world: s.world, streams: s.handle.streams }),
    );
    ScheduleView {
        world: expire_all(applied.world),
        handle: RuntimeHandleView { streams: applied.streams, ..s.handle },
        ..s
    }
}

/// What the publish stage makes of a world and its runtime.
pub open spec fn publish_stage(s: ScheduleView) -> ScheduleView {
    let published = publish_all((StreamingView { world: s.world, streams: s.handle.streams }));
    ScheduleView {
        world: measured(published.world),
        handle: RuntimeHandleView { streams: published.streams, ..s.handle },
        ..s
    }
}

/// What the cleanup stage makes of a world and its runtime.
pub open spec fn cleanup_stage(s: ScheduleView) -> ScheduleView {
    let cancelled = cancel_all((CancelView { world: s.world, outbox: s.effects.cancellations }));
    let cleaned = cleanup_all(
        (StreamingView { world: cancelled.world, streams: s.handle.streams }),
    );
    ScheduleView {
        world: retire_all(cleaned.world),
        handle: RuntimeHandleView { streams: cleaned.streams, ..s.handle },
        effects: EffectIoView { cancellations: cancelled.outbox, ..s.effects },
    }
}

/// What one stage makes of a world and its runtime.
#[verifier::opaque]
pub open spec fn after_stage(stage: RigSet, s: ScheduleView, reasons: Reasons) -> ScheduleView {
    match stage {
        RigSet::Ingest => ingest_stage(s),
        RigSet::Reconcile => ScheduleView {
            world: reconciled(reconcile_discoveries(s.world)),
            ..s
        },
        RigSet::Prepare => ScheduleView { world: prepare_models(prepare_stores(s.world)), ..s },
        RigSet::Policy => ScheduleView { world: apply_policies(s.world), ..s },
        RigSet::Dispatch => dispatch_stage(s),
        RigSet::Apply => apply_stage(s),
        RigSet::Commit => ScheduleView {
            world: commit_batches(commit_models(commit_stores(s.world), reasons)),
            ..s
        },
        RigSet::Persist => s,
        RigSet::Publish => publish_stage(s),
        RigSet::Cleanup => cleanup_stage(s),
    }
}

/// What one pass of the schedule makes of a world and its runtime: the stages in their order.
#[verifier::opaque]
pub open spec fn schedule_pass(s: ScheduleView, reasons: Reasons) -> ScheduleView {
    let s = after_stage(RigSet::Ingest, s, reasons);
    let s = after_stage(RigSet::Reconcile, s, reasons);
    let s = after_stage(RigSet::Prepare, s, reasons);
    let s = after_stage(RigSet::Policy, s, reasons);
    let s = after_stage(RigSet::Dispatch, s, reasons);
    let s = after_stage(RigSet::Apply, s, reasons);
    let s = after_stage(RigSet::Commit, s, reasons);
    let s = after_stage(RigSet::Persist, s, reasons);
    let s = after_stage(RigSet::Publish, s, reasons);
    after_stage(RigSet::Cleanup, s, reasons)
}

/// Reasons for which schemas are refused, by the pass in which the output is checked.
pub type PassReasons = Seq<Reasons>;

/// What a number of passes makes of a world and its runtime.
pub open spec fn after_passes(s: ScheduleView, n: nat, reasons: PassReasons) -> ScheduleView
    decreases n,
{
    if n == 0 {
        s
    } else {
        schedule_pass(after_passes(s, (n - 1) as nat, reasons), reasons[n - 1])
    }
}

/// Passes depend on their own reasons only.
pub proof fn lemma_own_passes(s: ScheduleView, n: nat, first: PassReasons, second: PassReasons)
    requires
        forall|i: int| 0 <= i < n ==> #[trigger] first[i] == second[i],
    ensures
        after_passes(s, n, first) == after_passes(s, n, second),
    decreases n,
{
    if n > 0 {
        lemma_own_passes(s, (n - 1) as nat, first, second);
        assert(first[n - 1] == second[n - 1]);
    }
}

/// Whether pass number `n` reports no progress.
pub open spec fn stalls_at(s: ScheduleView, n: nat, reasons: PassReasons) -> bool {
    &&& n > 0
    &&& after_passes(s, n, reasons).world.resources.epoch == after_passes(
        s,
        (n - 1) as nat,
        reasons,
    ).world.resources.epoch
}

/// The first pass, from a pass on and up to a limit, that reports no progress.
pub open spec fn first_stall(
    s: ScheduleView,
    limit: nat,
    from: nat,
    reasons: PassReasons,
) -> Option<nat>
    decreases limit + 1 - from,
{
    if from > limit {
        None
    } else if stalls_at(s, from, reasons) {
        Some(from)
    } else {
        first_stall(s, limit, from + 1, reasons)
    }
}

/// What driving a runtime makes of it: passes up to the first that reports no progress, or up to
/// the limit.
pub open spec fn driven(s: ScheduleView, limit: nat, reasons: PassReasons) -> ScheduleView {
    after_passes(
        s,
        match first_stall(s, limit, 1, reasons) {
            Some(n) => n,
            None => limit,
        },
        reasons,
    )
}

proof fn lemma_first_stall(s: ScheduleView, limit: nat, from: nat, reasons: PassReasons)
    requires
        1 <= from,
    ensures
        match first_stall(s, limit, from, reasons) {
            Some(n) => {
                &&& from <= n <= limit
                &&& stalls_at(s, n, reasons)
                &&& forall|m: nat| from <= m < n ==> !#[trigger] stalls_at(s, m, reasons)
            },
            None => forall|m: nat| from <= m <= limit ==> !#[trigger] stalls_at(s, m, reasons),
        },
    decreases limit + 1 - from,
{
    if from <= limit && !stalls_at(s, from, reasons) {
        lemma_first_stall(s, limit, from + 1, reasons);
    }
}

/// Driving a runtime stops at the first pass that reports no progress, and never takes more passes
/// than the limit; it gives up only where every pass up to the limit reports progress.
pub proof fn law_drive_is_bounded(s: ScheduleView, limit: nat, reasons: PassReasons)
    ensures
        match first_stall(s, limit, 1, reasons) {
            Some(n) => {
                &&& 1 <= n <= limit
                &&& stalls_at(s, n, reasons)
                &&& forall|m: nat| 1 <= m < n ==> !#[trigger] stalls_at(s, m, reasons)
                &&& driven(s, limit, reasons) == after_passes(s, n, reasons)
            },
            None => {
                &&& forall|m: nat| 1 <= m <= limit ==> !#[trigger] stalls_at(s, m, reasons)
                &&& driven(s, limit, reasons) == after_passes(s, limit, reasons)
            },
        },
{
    lemma_first_stall(s, limit, 1, reasons);
}

/// Only the ingest stage touches the queues that feed it.
proof fn lemma_stage_frame(stage: RigSet, s: ScheduleView, reasons: Reasons)
    ensures
        ({
            let t = after_stage(stage, s, reasons);
            &&& t.handle.runtime_id == s.handle.runtime_id
            &&& stage == RigSet::Ingest ==> t.effects.ingress == s.effects.ingress.drained()
                && t.handle.commands == s.handle.commands.drained()
            &&& stage != RigSet::Ingest ==> t.effects.ingress == s.effects.ingress
                && t.handle.commands == s.handle.commands
        }),
{
    reveal(after_stage);
}

/// A pass takes in everything that executors have sent, and leaves the rest of the ingress queue
/// as it was.
pub proof fn law_pass_drains_ingress(s: ScheduleView, reasons: Reasons)
    ensures
        schedule_pass(s, reasons).effects.ingress == s.effects.ingress.drained(),
        schedule_pass(s, reasons).handle.commands == s.handle.commands.drained(),
        schedule_pass(s, reasons).handle.runtime_id == s.handle.runtime_id,
{
    reveal(schedule_pass);
    let s0 = after_stage(RigSet::Ingest, s, reasons);
    let s1 = after_stage(RigSet::Reconcile, s0, reasons);
    let s2 = after_stage(RigSet::Prepare, s1, reasons);
    let s3 = after_stage(RigSet::Policy, s2, reasons);
    let s4 = after_stage(RigSet::Dispatch, s3, reasons);
    let s5 = after_stage(RigSet::Apply, s4, reasons);
    let s6 = after_stage(RigSet::Commit, s5, reasons);
    let s7 = after_stage(RigSet::Persist, s6, reasons);
    let s8 = after_stage(RigSet::Publish, s7, reasons);
    lemma_stage_frame(RigSet::Ingest, s, reasons);
    lemma_stage_frame(RigSet::Reconcile, s0, reasons);
    lemma_stage_frame(RigSet::Prepare, s1, reasons);
    lemma_stage_frame(RigSet::Policy, s2, reasons);
    lemma_stage_frame(RigSet::Dispatch, s3, reasons);
    lemma_stage_frame(RigSet::Apply, s4, reasons);
    lemma_stage_frame(RigSet::Commit, s5, reasons);
    lemma_stage_frame(RigSet::Persist, s6, reasons);
    lemma_stage_frame(RigSet::Publish, s7, reasons);
    lemma_stage_frame(RigSet::Cleanup, s8, reasons);
}

/// Passes take in everything that executors have sent.
pub proof fn lemma_passes_drain_ingress(s: ScheduleView, n: nat, reasons: PassReasons)
    requires
        1 <= n,
    ensures
        after_passes(s, n, reasons).effects.ingress == s.effects.ingress.drained(),
    decreases n,
{
    law_pass_drains_ingress(after_passes(s, (n - 1) as nat, reasons), reasons[n - 1]);
    if n > 1 {
        lemma_passes_drain_ingress(s, (n - 1) as nat, reasons);
    }
}

/// A stage other than the commit has no reasons to give.
proof fn lemma_no_reasons(stage: RigSet, s: ScheduleView, first: Reasons, second: Reasons)
    requires
        stage != RigSet::Commit,
    ensures
        after_stage(stage, s, first) == after_stage(stage, s, second),
{
    reveal(after_stage);
}

/// Runs one stage of the schedule. A host may run systems of its own between two stages. The
/// reasons for which schemas are refused are the outside crate's; only the commit has any.
pub fn run_stage(
    stage: RigSet,
    world: &mut World,
    handle: &mut RuntimeHandle,
    effects: &mut EffectIo,
)
    ensures
        exists|reasons: Reasons|
            (ScheduleView {
                world: final(world)@,
                handle: final(handle)@,
                effects: final(effects)@,
            }) == #[trigger] after_stage(
                stage,
                (ScheduleView { world: old(world)@, handle: old(handle)@, effects: old(effects)@ }),
                reasons,
            ),
{
    reveal(after_stage);
    let ghost start = ScheduleView { world: world@, handle: handle@, effects: effects@ };
    let ghost mut reasons: Reasons = Map::empty();
    match stage {
        RigSet::Ingest => {
            advance_runtime_clock(world);
            ingest_commands(world, &mut handle.commands);
            ingest_observations(world, &mut handle.observations);
            assert(handle.observations.deep_view() =~= Seq::empty());
            ingest_completions(world, &mut effects.ingress);
        },
        RigSet::Reconcile => {
            reconcile_discovery_operations(world);
            reconcile_stable_ids(world);
        },
        RigSet::Prepare => {
            prepare_store_operations(world);
            prepare_model_operations(world);
        },
        RigSet::Policy => apply_builtin_policy(world),
        RigSet::Dispatch => {
            dispatch_model_operations(world, &mut effects.requests);
            dispatch_tool_operations(world, &mut effects.requests);
            dispatch_discovery_operations(world, &mut effects.requests);
            dispatch_store_operations(world, &mut effects.requests);
        },
        RigSet::Apply => {
            apply_effect_ingress(world, &mut handle.streams);
            expire_effects(world);
        },
        RigSet::Commit => {
            commit_store_operations(world);
            let ghost stored = world@;
            commit_model_operations(world);
            proof {
                reasons = choose|reasons: Reasons|
                    world@ == #[trigger] commit_models(stored, reasons);
            }
            commit_tool_batches(world);
        },
        RigSet::Persist => {},
        RigSet::Publish => {
            publish_terminal_streams(world, &mut handle.streams);
            update_runtime_metrics(world);
        },
        RigSet::Cleanup => {
            propagate_cancellation(world, &mut effects.cancellations);
            cleanup_observed_runs(world, &mut handle.streams);
            cleanup_retired_tools(world);
        },
    }
    assert((ScheduleView { world: world@, handle: handle@, effects: effects@ }) == after_stage(
        stage,
        start,
        reasons,
    ));
}

/// Runs one pass of the schedule. The reasons for which schemas are refused are the outside
/// crate's.
pub fn run_schedule(world: &mut World, handle: &mut RuntimeHandle, effects: &mut EffectIo)
    ensures
        exists|reasons: Reasons|
            (ScheduleView {
                world: final(world)@,
                handle: final(handle)@,
                effects: final(effects)@,
            }) == #[trigger] schedule_pass(
                (ScheduleView { world: old(world)@, handle: old(handle)@, effects: old(effects)@ }),
                reasons,
            ),
{
    reveal(schedule_pass);
    let ghost s = ScheduleView { world: world@, handle: handle@, effects: effects@ };
    run_stage(RigSet::Ingest, world, handle, effects);
    let ghost s0 = ScheduleView { world: world@, handle: handle@, effects: effects@ };
    run_stage(RigSet::Reconcile, world, handle, effects);
    let ghost s1 = ScheduleView { world: world@, handle: handle@, effects: effects@ };
    run_stage(RigSet::Prepare, world, handle, effects);
    let ghost s2 = ScheduleView { world: world@, handle: handle@, effects: effects@ };
    run_stage(RigSet::Policy, world, handle, effects);
    let ghost s3 = ScheduleView { world: world@, handle: handle@, effects: effects@ };
    run_stage(RigSet::Dispatch, world, handle, effects);
    let ghost s4 = ScheduleView { world: world@, handle: handle@, effects: effects@ };
    run_stage(RigSet::Apply, world, handle, effects);
    let ghost s5 = ScheduleView { world: world@, handle: handle@, effects: effects@ };
    run_stage(RigSet::Commit, world, handle, effects);
    let ghost s6 = ScheduleView { world: world@, handle: handle@, effects: effects@ };
    run_stage(RigSet::Persist, world, handle, effects);
    let ghost s7 = ScheduleView { world: world@, handle: handle@, effects: effects@ };
    run_stage(RigSet::Publish, world, handle, effects);
    let ghost s8 = ScheduleView { world: world@, handle: handle@, effects: effects@ };
    run_stage(RigSet::Cleanup, world, handle, effects);
    let ghost s9 = ScheduleView { world: world@, handle: handle@, effects: effects@ };
    proof {
        let reasons = choose|reasons: Reasons|
            s6 == #[trigger] after_stage(RigSet::Commit, s5, reasons);
        let r0 = choose|r: Reasons| s0 == #[trigger] after_stage(RigSet::Ingest, s, r);
        lemma_no_reasons(RigSet::Ingest, s, r0, reasons);
        let r1 = choose|r: Reasons| s1 == #[trigger] after_stage(RigSet::Reconcile, s0, r);
        lemma_no_reasons(RigSet::Reconcile, s0, r1, reasons);
        let r2 = choose|r: Reasons| s2 == #[trigger] after_stage(RigSet::Prepare, s1, r);
        lemma_no_reasons(RigSet::Prepare, s1, r2, reasons);
        let r3 = choose|r: Reasons| s3 == #[trigger] after_stage(RigSet::Policy, s2, r);
        lemma_no_reasons(RigSet::Policy, s2, r3, reasons);
        let r4 = choose|r: Reasons| s4 == #[trigger] after_stage(RigSet::Dispatch, s3, r);
        lemma_no_reasons(RigSet::Dispatch, s3, r4, reasons);
        let r5 = choose|r: Reasons| s5 == #[trigger] after_stage(RigSet::Apply, s4, r);
        lemma_no_reasons(RigSet::Apply, s4, r5, reasons);
        let r7 = choose|r: Reasons| s7 == #[trigger] after_stage(RigSet::Persist, s6, r);
        lemma_no_reasons(RigSet::Persist, s6, r7, reasons);
        let r8 = choose|r: Reasons| s8 == #[trigger] after_stage(RigSet::Publish, s7, r);
        lemma_no_reasons(RigSet::Publish, s7, r8, reasons);
        let r9 = choose|r: Reasons| s9 == #[trigger] after_stage(RigSet::Cleanup, s8, r);
        lemma_no_reasons(RigSet::Cleanup, s8, r9, reasons);
        assert(s9 == schedule_pass(s, reasons));
    }
}

} // verus!
