//! Application of ordered policies to prepared model operations.

use vstd::prelude::*;

use crate::capability::{
    AcceptedPoliciesView, AcceptedPolicy, AcceptedPolicyView, PolicyPoint, PolicyProgress,
    PolicyRule, PolicyRuleView, RequestPatch, RequestPatchView,
};
use crate::column::{entities_of, sources_of, Entity};
use crate::effect::{
    CanonicalError, CanonicalErrorView, OperationOutcome, OperationOutcomeView, OperationPhase,
    OperationPhaseView,
};
use crate::fold::{lemma_fold_next, lemma_picked_next, picked};
use crate::policy::{
    accepts_new, accepts_new_policy_evaluations, rule_point, PolicyStatus,
};
use crate::sorting::{
    lemma_sort_rows, row_values, sort_rows, sort_values, KeyPart, KeyPartView, KeyView,
};
use crate::text::{occurs_in, text_contains};
use crate::world::{OperationsView, World, WorldView};

verus! {

/// The sort row of a policy: its order, then its id.
pub open spec fn policy_rank(w: WorldView, e: Entity) -> Option<(KeyView, Entity)> {
    if ranked(w, e) {
        Some(
            (
                seq![
                    KeyPartView::Number(w.domain.policies[e].order as u64),
                    KeyPartView::Text(w.stable_ids[e]),
                ],
                e,
            ),
        )
    } else {
        None
    }
}

/// Whether a policy of the world is excluded from new evaluations.
pub open spec fn admission(w: WorldView, e: Entity) -> Option<PolicyStatus> {
    if w.domain.policy_status.contains_key(e) {
        Some(w.domain.policy_status[e])
    } else {
        None
    }
}

/// Whether an entity is a policy with an identity that governs requests.
pub open spec fn ranked(w: WorldView, e: Entity) -> bool {
    &&& w.stable_ids.contains_key(e)
    &&& w.domain.policies.contains_key(e)
    &&& rule_point(w.domain.policies[e].rule) == PolicyPoint::Request
    &&& accepts_new(admission(w, e))
}

/// The policies of an agent that govern requests, in the order in which they apply.
pub open spec fn ordered_policies(w: WorldView, agent: Entity) -> Seq<Entity> {
    row_values(
        sort_rows(
            picked(sources_of(w.domain.policy_for, agent), |e: Entity| policy_rank(w, e)),
        ),
    )
}

/// Whether a rule denies a prompt with the given text.
pub open spec fn rule_denies(rule: PolicyRuleView, text: Option<Seq<char>>) -> bool {
    match (rule, text) {
        (PolicyRuleView::DenyPromptContains(needle), Some(text)) => occurs_in(needle, text),
        _ => false,
    }
}

/// Position of the first policy at `from` or later that denies the prompt; the number of
/// policies where none does.
pub open spec fn denial_position(
    w: WorldView,
    order: Seq<Entity>,
    text: Option<Seq<char>>,
    from: int,
) -> int
    decreases order.len() - from,
{
    if from < 0 || from >= order.len() {
        order.len() as int
    } else if rule_denies(w.domain.policies[order[from]].rule, text) {
        from
    } else {
        denial_position(w, order, text, from + 1)
    }
}

/// The record that a policy was applied.
pub open spec fn applied_policy(w: WorldView, e: Entity) -> AcceptedPolicyView {
    AcceptedPolicyView {
        id: w.stable_ids[e],
        entity: e,
        revision: w.domain.policies[e].revision,
        order: w.domain.policies[e].order,
        point: PolicyPoint::Request,
    }
}

/// The records of the first policies.
pub open spec fn applied_policies(w: WorldView, order: Seq<Entity>) -> Seq<AcceptedPolicyView> {
    Seq::new(order.len(), |i: int| applied_policy(w, order[i]))
}

/// The text of the prompt of a model operation.
pub open spec fn prompt_text_of(w: WorldView, operation: Entity) -> Option<Seq<char>> {
    w.operations.model_inputs[operation].prompt_text
}

/// The patches of policies, reduced in their order to one patch.
pub open spec fn reduced_patch(w: WorldView, order: Seq<Entity>) -> RequestPatchView
    decreases order.len(),
{
    if order.len() == 0 {
        RequestPatchView::nothing()
    } else {
        let before = reduced_patch(w, order.drop_last());
        match w.domain.policies[order.last()].rule {
            PolicyRuleView::PatchRequest(patch) => before.followed_by(patch),
            _ => before,
        }
    }
}

/// The world in which a patch was applied to the request of an operation, and to no other.
pub open spec fn with_request_patch(
    w: WorldView,
    operation: Entity,
    patch: RequestPatchView,
) -> WorldView {
    WorldView {
        operations: OperationsView {
            model_inputs: w.operations.model_inputs.insert(
                operation,
                patch.applied_to(w.operations.model_inputs[operation]),
            ),
            ..w.operations
        },
        ..w
    }
}

/// Whether a model operation of a run waits for its policies.
pub open spec fn policy_due(w: WorldView, operation: Entity) -> bool {
    &&& w.operations.operation_of.contains_key(operation)
    &&& w.operations.model_inputs.contains_key(operation)
    &&& w.operations.states.contains_key(operation)
    &&& w.operations.accepted_policies.contains_key(operation)
    &&& w.operations.policy_progress.contains_key(operation)
    &&& !w.domain.policies.contains_key(operation)
    &&& w.operations.states[operation].phase is Prepared
    &&& w.operations.policy_progress[operation] == PolicyProgress::Pending
    &&& w.runs.run_of.contains_key(w.operations.operation_of[operation])
}

/// The world in which policies were applied to an operation.
pub open spec fn with_policies(
    w: WorldView,
    operation: Entity,
    applied: Seq<AcceptedPolicyView>,
) -> WorldView {
    WorldView {
        operations: OperationsView {
            accepted_policies: w.operations.accepted_policies.insert(
                operation,
                AcceptedPoliciesView(w.operations.accepted_policies[operation].0 + applied),
            ),
            policy_progress: w.operations.policy_progress.insert(operation, PolicyProgress::Accepted),
            ..w.operations
        },
        ..w
    }
}

/// The world after the policies of one operation were applied, if it waits for them: each policy
/// up to the first denial is recorded. A denial settles the operation; otherwise the patches of
/// the policies are applied to its request. Rules that need an extension to act on them are
/// recorded like the others and do nothing by themselves.
pub open spec fn policy_step(w: WorldView, operation: Entity) -> WorldView {
    if !policy_due(w, operation) {
        w
    } else {
        let run = w.operations.operation_of[operation];
        let order = ordered_policies(w, w.runs.run_of[run]);
        let denial = denial_position(w, order, prompt_text_of(w, operation), 0);
        if denial < order.len() {
            with_policies(w, operation, applied_policies(w, order.take(denial + 1))).with_phase(
                operation,
                OperationPhaseView::Settled(
                    OperationOutcomeView::Failure(
                        CanonicalErrorView::PolicyDenied { policy: w.stable_ids[order[denial]] },
                    ),
                ),
            ).progressed()
        } else {
            with_policies(
                with_request_patch(w, operation, reduced_patch(w, order)),
                operation,
                applied_policies(w, order),
            ).progressed()
        }
    }
}

/// The world after the policies of every waiting operation were applied.
pub open spec fn apply_policies(w: WorldView) -> WorldView {
    entities_of(w.operations.model_inputs.dom()).fold_left(
        w,
        |w: WorldView, e: Entity| policy_step(w, e),
    )
}

fn read_status(world: &World, e: Entity) -> (r: Option<PolicyStatus>)
    ensures
        r == admission(world@, e),
{
    match world.domain.policy_status.get(e) {
        Some(status) => Some(*status),
        None => None,
    }
}

fn order_policies(world: &World, agent: Entity) -> (r: Vec<Entity>)
    ensures
        r@ == ordered_policies(world@, agent),
        forall|i: int| 0 <= i < r@.len() ==> ranked(world@, #[trigger] r@[i]),
{
    broadcast use crate::fold::group_fold;

    let ids = world.domain.policy_for.sources(agent);
    let ghost pick = |e: Entity| policy_rank(world@, e);
    let mut rows: Vec<(Vec<KeyPart>, Entity)> = Vec::new();
    let mut i: usize = 0;
    assert(rows.deep_view() =~= Seq::empty());
    while i < ids.len()
        invariant
            i <= ids@.len(),
            pick == (|e: Entity| policy_rank(world@, e)),
            rows.deep_view() == picked(ids@.take(i as int), pick),
            forall|k: int| 0 <= k < rows@.len() ==> ranked(world@, (#[trigger] rows@[k]).1),
        decreases ids@.len() - i,
    {
        let e = ids[i];
        proof {
            lemma_picked_next(ids@, i as int, pick);
        }
        let ghost before = rows.deep_view();
        match (world.stable_ids.get(e), world.domain.policies.get(e)) {
            (Some(id), Some(policy)) if policy.rule.point() == PolicyPoint::Request
                && accepts_new_policy_evaluations(read_status(world, e)) => {
                let key = vec![KeyPart::Number(policy.order as u64), KeyPart::Text(id.text())];
                proof {
                    assert(key.deep_view() =~= seq![
                        KeyPartView::Number(policy.order as u64),
                        KeyPartView::Text(id@),
                    ]);
                }
                rows.push((key, e));
                assert(rows.deep_view() =~= before.push(policy_rank(world@, e)->0));
            },
            _ => {},
        }
        i = i + 1;
    }
    let ghost all = rows.deep_view();
    assert forall|k: int| 0 <= k < all.len() implies ranked(world@, (#[trigger] all[k]).1) by {
        assert(all[k] == rows@[k].deep_view());
    }
    let r = sort_values(rows);
    proof {
        lemma_sort_rows(all);
        let sorted = sort_rows(all);
        assert(r@ =~= r.deep_view());
        assert forall|k: int| 0 <= k < r@.len() implies ranked(world@, #[trigger] r@[k]) by {
            assert(r@[k] == sorted[k].1);
            sorted.to_multiset_ensures();
            all.to_multiset_ensures();
            assert(sorted.contains(sorted[k]));
            assert(sorted.to_multiset().count(sorted[k]) > 0);
            assert(all.contains(sorted[k]));
            let m = choose|m: int| 0 <= m < all.len() && all[m] == sorted[k];
            assert(ranked(world@, all[m].1));
        }
    }
    r
}

/// Whether a rule denies a prompt with the given text.
pub fn denies(rule: &PolicyRule, text: &Option<String>) -> (r: bool)
    ensures
        r == rule_denies(rule@, text.deep_view()),
{
    match (rule, text) {
        (PolicyRule::DenyPromptContains(needle), Some(text)) => text_contains(
            text.as_str(),
            needle.as_str(),
        ),
        _ => false,
    }
}

/// Applies the policies of one operation, if it waits for them.
pub fn apply_operation_policy(world: &mut World, operation: Entity)
    ensures
        final(world)@ == policy_step(old(world)@, operation),
{
    if !world.operations.model_inputs.contains(operation) || world.domain.policies.contains(
        operation,
    ) {
        return;
    }
    let run = match world.operations.operation_of.get(operation) {
        Some(run) => *run,
        None => {
            return;
        },
    };
    match world.operations.states.get(operation) {
        Some(state) => match state.phase {
            OperationPhase::Prepared => {},
            _ => {
                return;
            },
        },
        None => {
            return;
        },
    }
    match world.operations.policy_progress.get(operation) {
        Some(PolicyProgress::Pending) => {},
        _ => {
            return;
        },
    }
    let agent = match world.runs.run_of.get(run) {
        Some(agent) => *agent,
        None => {
            return;
        },
    };
    let mut accepted = match world.operations.accepted_policies.get(operation) {
        Some(accepted) => accepted.clone(),
        None => {
            return;
        },
    };
    let input = match world.operations.model_inputs.get(operation) {
        Some(input) => input.clone(),
        None => {
            return;
        },
    };
    let text = input.prompt_text.clone();
    proof {
        assert(text.deep_view() =~= prompt_text_of(world@, operation));
    }
    let order = order_policies(world, agent);
    let ghost w = world@;
    let ghost prior = accepted@.0;
    let ghost views = text.deep_view();
    let mut denied: Option<String> = None;
    let mut patch = RequestPatch::new();
    let mut i: usize = 0;
    assert(order@.take(0) =~= Seq::empty());
    assert(order@.take(order@.len() as int) =~= order@);
    assert(prior + applied_policies(w, order@.take(0)) =~= prior);
    while i < order.len()
        invariant_except_break
            denied is None,
            denial_position(w, order@, views, 0) == denial_position(w, order@, views, i as int),
            accepted@.0 == prior + applied_policies(w, order@.take(i as int)),
            patch@ == reduced_patch(w, order@.take(i as int)),
        invariant
            i <= order@.len(),
            w == world@,
            views == text.deep_view(),
            order@.take(order@.len() as int) == order@,
            forall|k: int| 0 <= k < order@.len() ==> ranked(w, #[trigger] order@[k]),
        ensures
            ({
                let denial = denial_position(w, order@, views, 0);
                if denial < order@.len() {
                    &&& denied.deep_view() == Some(w.stable_ids[order@[denial]])
                    &&& accepted@.0 == prior + applied_policies(w, order@.take(denial + 1))
                } else {
                    &&& denied is None
                    &&& accepted@.0 == prior + applied_policies(w, order@)
                    &&& patch@ == reduced_patch(w, order@)
                }
            }),
        decreases order@.len() - i,
    {
        let e = order[i];
        assert(ranked(w, order@[i as int]));
        match (world.stable_ids.get(e), world.domain.policies.get(e)) {
            (Some(id), Some(policy)) => {
                let ghost before = accepted@.0;
                accepted.0.push(
                    AcceptedPolicy {
                        id: id.clone(),
                        entity: e,
                        revision: policy.revision,
                        order: policy.order,
                        point: PolicyPoint::Request,
                    },
                );
                proof {
                    assert(accepted@.0 =~= before.push(applied_policy(w, e)));
                    assert(accepted@.0 =~= prior + applied_policies(w, order@.take(i + 1)));
                }
                if denies(&policy.rule, &text) {
                    denied = Some(id.text());
                    break;
                }
                proof {
                    assert(order@.take(i + 1).drop_last() =~= order@.take(i as int));
                    assert(order@.take(i + 1).last() == e);
                }
                if let PolicyRule::PatchRequest(more) = &policy.rule {
                    patch = patch.reduce(more.clone());
                }
            },
            _ => {},
        }
        i = i + 1;
    }
    world.operations.accepted_policies.insert(operation, accepted);
    world.operations.policy_progress.insert(operation, PolicyProgress::Accepted);
    match denied {
        Some(policy) => {
            world.set_phase(
                operation,
                OperationPhase::Settled(
                    OperationOutcome::Failure(CanonicalError::PolicyDenied { policy }),
                ),
            );
        },
        None => {
            world.operations.model_inputs.insert(operation, patch.apply(input));
        },
    }
    world.mark_progress();
}

/// Applies the policies of every waiting operation.
pub fn apply_builtin_policy(world: &mut World)
    ensures
        final(world)@ == apply_policies(old(world)@),
{
    broadcast use crate::fold::group_fold;

    let ids = world.operations.model_inputs.entities();
    let ghost start = world@;
    let ghost step = |w: WorldView, e: Entity| policy_step(w, e);
    let mut i: usize = 0;
    while i < ids.len()
        invariant
            i <= ids@.len(),
            step == (|w: WorldView, e: Entity| policy_step(w, e)),
            world@ == ids@.take(i as int).fold_left(start, step),
        decreases ids@.len() - i,
    {
        proof {
            lemma_fold_next(ids@, i as int, start, step);
        }
        apply_operation_policy(world, ids[i]);
        i = i + 1;
    }
}

} // verus!
