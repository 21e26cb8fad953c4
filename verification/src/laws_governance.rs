//! What the policies of an agent do to the requests of its runs.

use vstd::prelude::*;

use crate::capability::{
    AcceptedPolicyView, PolicyPoint, PolicyProgress, PolicyRuleView, RequestPatchView,
    RetrievedDocumentView,
};
use crate::column::{
    entities_of, lemma_entities, lemma_sources, lemma_sources_ascending, sources_of,
    strictly_ascending, Entity,
};
use crate::effect::{
    CanonicalErrorView, ModelEffectInputView, OperationOutcomeView, OperationPhaseView,
    ToolDecisionView,
};
use crate::fold::{lemma_fold_reaches, lemma_picked_members, picked};
use crate::json::{json_is_object, json_merged};
use crate::patch::allowed_tools;
use crate::policy::PolicyStatus;
use crate::policy_stage::{
    applied_policies, apply_policies, denial_position, ordered_policies, policy_rank, policy_step,
    reduced_patch, rule_denies,
};
use crate::sorting::{key_le, lemma_sort_rows, row_values, sort_rows, KeyView};
use crate::text::{lemma_text_le_reflexive, text_le};
use crate::world::WorldView;

verus! {

/// Whether a rule is about requests.
pub open spec fn is_about_requests(rule: PolicyRuleView) -> bool {
    ||| rule is Allow
    ||| rule is DenyPromptContains
    ||| rule is PatchRequest
    ||| rule == PolicyRuleView::Custom(PolicyPoint::Request)
    ||| rule is RequireApproval && rule->RequireApproval_point == PolicyPoint::Request
}

/// Whether an entity is a policy of an agent about requests that is not retired.
pub open spec fn governs_requests(w: WorldView, agent: Entity, e: Entity) -> bool {
    &&& w.domain.policy_for.contains_key(e)
    &&& w.domain.policy_for[e] == agent
    &&& w.stable_ids.contains_key(e)
    &&& w.domain.policies.contains_key(e)
    &&& is_about_requests(w.domain.policies[e].rule)
    &&& !(w.domain.policy_status.contains_key(e) && w.domain.policy_status[e]
        == PolicyStatus::Retired)
}

/// Whether one policy applies before another: by its order, and among equals by its id.
pub open spec fn applies_before(w: WorldView, a: Entity, b: Entity) -> bool {
    let x = w.domain.policies[a].order;
    let y = w.domain.policies[b].order;
    x <= y && (x == y ==> text_le(w.stable_ids[a], w.stable_ids[b]))
}

/// The key of a row.
spec fn key_of<V>(row: Option<(KeyView, V)>) -> KeyView {
    match row {
        Some((key, _)) => key,
        None => Seq::empty(),
    }
}

proof fn lemma_policy_keys(w: WorldView, a: Entity, b: Entity)
    requires
        policy_rank(w, a) is Some,
        policy_rank(w, b) is Some,
        key_le(key_of(policy_rank(w, a)), key_of(policy_rank(w, b))),
    ensures
        applies_before(w, a, b),
{
    reveal_with_fuel(key_le, 4);
    let x = key_of(policy_rank(w, a));
    let y = key_of(policy_rank(w, b));
    assert(x.drop_first()[0] == x[1] && y.drop_first()[0] == y[1]);
    lemma_text_le_reflexive(w.stable_ids[a]);
}

/// Rows that are picked for different entities are different.
proof fn lemma_ranks_distinct(w: WorldView, ids: Seq<Entity>)
    requires
        strictly_ascending(ids),
    ensures
        picked(ids, |e: Entity| policy_rank(w, e)).no_duplicates(),
    decreases ids.len(),
{
    let pick = |e: Entity| policy_rank(w, e);
    if ids.len() > 0 {
        let front = ids.drop_last();
        lemma_ranks_distinct(w, front);
        let rest = picked(front, pick);
        let all = picked(ids, pick);
        assert forall|i: int, j: int|
            0 <= i < all.len() && 0 <= j < all.len() && i != j implies all[i] != all[j] by {
            if i < rest.len() && j < rest.len() {
                assert(all[i] == rest[i] && all[j] == rest[j]);
            } else {
                let k = if i < rest.len() {
                    i
                } else {
                    j
                };
                assert(all[k] == rest[k]);
                lemma_picked_members(front, pick, rest[k]);
                assert(rest.contains(rest[k]));
                let m = choose|m: int|
                    0 <= m < front.len() && #[trigger] pick(front[m]) == Some(rest[k]);
                assert(ids[m].0 < ids[ids.len() - 1].0);
            }
        }
    }
}

/// The policies that apply to the requests of an agent are all those about requests that are not
/// retired, each once, in the order that they state; where that is equal, in the order of their
/// ids.
pub proof fn law_policies_apply_in_their_order(w: WorldView, agent: Entity)
    requires
        w.domain.policy_for.dom().finite(),
    ensures
        ({
            let order = ordered_policies(w, agent);
            &&& forall|i: int, j: int|
                0 <= i < j < order.len() ==> applies_before(
                    w,
                    #[trigger] order[i],
                    #[trigger] order[j],
                )
            &&& forall|e: Entity| #[trigger]
                order.contains(e) <==> governs_requests(w, agent, e)
            &&& order.no_duplicates()
        }),
{
    let ids = sources_of(w.domain.policy_for, agent);
    let pick = |e: Entity| policy_rank(w, e);
    let rows = picked(ids, pick);
    let sorted = sort_rows(rows);
    let order = ordered_policies(w, agent);
    assert(order == row_values(sorted));
    lemma_sort_rows(rows);
    rows.to_multiset_ensures();
    sorted.to_multiset_ensures();
    lemma_sources_ascending(w.domain.policy_for, agent);
    lemma_ranks_distinct(w, ids);
    rows.lemma_multiset_has_no_duplicates();
    sorted.lemma_multiset_has_no_duplicates_conv();
    assert forall|k: int| 0 <= k < sorted.len() implies policy_rank(w, order[k]) == Some(
        #[trigger] sorted[k],
    ) && governs_requests(w, agent, order[k]) by {
        assert(sorted.contains(sorted[k]));
        assert(sorted.to_multiset().count(sorted[k]) > 0);
        assert(rows.contains(sorted[k]));
        lemma_picked_members(ids, pick, sorted[k]);
        let i = choose|i: int| 0 <= i < ids.len() && #[trigger] pick(ids[i]) == Some(sorted[k]);
        assert(ids.contains(ids[i]));
        lemma_sources(w.domain.policy_for, agent, ids[i]);
    }
    assert forall|i: int, j: int| 0 <= i < j < order.len() implies applies_before(
        w,
        #[trigger] order[i],
        #[trigger] order[j],
    ) by {
        assert(policy_rank(w, order[i]) == Some(sorted[i]));
        assert(policy_rank(w, order[j]) == Some(sorted[j]));
        assert(key_le(sorted[i].0, sorted[j].0));
        lemma_policy_keys(w, order[i], order[j]);
    }
    assert forall|e: Entity| #[trigger] order.contains(e) <==> governs_requests(w, agent, e) by {
        if order.contains(e) {
            let k = choose|k: int| 0 <= k < order.len() && order[k] == e;
            assert(policy_rank(w, order[k]) == Some(sorted[k]));
        }
        if governs_requests(w, agent, e) {
            lemma_sources(w.domain.policy_for, agent, e);
            let m = choose|m: int| 0 <= m < ids.len() && ids[m] == e;
            let row = policy_rank(w, e)->0;
            assert(pick(ids[m]) == Some(row));
            lemma_picked_members(ids, pick, row);
            assert(rows.contains(row));
            assert(rows.to_multiset().count(row) > 0);
            assert(sorted.contains(row));
            let k = choose|k: int| 0 <= k < sorted.len() && sorted[k] == row;
            assert(order[k] == e);
        }
    }
    assert forall|i: int, j: int|
        0 <= i < order.len() && 0 <= j < order.len() && i != j implies order[i] != order[j] by {
        assert(policy_rank(w, order[i]) == Some(sorted[i]));
        assert(policy_rank(w, order[j]) == Some(sorted[j]));
    }
}

/// Whether a model operation of an agent's run waits for its policies.
pub open spec fn awaits_policies(
    w: WorldView,
    operation: Entity,
    agent: Entity,
) -> bool {
    &&& w.operations.model_inputs.dom().finite()
    &&& w.domain.policy_for.dom().finite()
    &&& w.operations.model_inputs.contains_key(operation)
    &&& w.operations.operation_of.contains_key(operation)
    &&& w.operations.states.contains_key(operation)
    &&& w.operations.states[operation].phase is Prepared
    &&& w.operations.accepted_policies.contains_key(operation)
    &&& w.operations.policy_progress.contains_key(operation)
    &&& w.operations.policy_progress[operation] == PolicyProgress::Pending
    &&& !w.domain.policies.contains_key(operation)
    &&& w.runs.run_of.contains_key(w.operations.operation_of[operation])
    &&& w.runs.run_of[w.operations.operation_of[operation]] == agent
}

/// Whether two worlds hold the same for an operation.
spec fn same_operation(w: WorldView, v: WorldView, operation: Entity) -> bool {
    &&& v.operations.model_inputs.contains_key(operation)
    &&& v.operations.model_inputs[operation] == w.operations.model_inputs[operation]
    &&& v.operations.states.contains_key(operation)
    &&& v.operations.states[operation] == w.operations.states[operation]
    &&& v.operations.accepted_policies.contains_key(operation)
    &&& v.operations.accepted_policies[operation] == w.operations.accepted_policies[operation]
    &&& v.operations.policy_progress.contains_key(operation)
    &&& v.operations.policy_progress[operation] == w.operations.policy_progress[operation]
}

/// Whether two worlds differ in nothing that policies go by.
spec fn same_ground(w: WorldView, v: WorldView) -> bool {
    &&& v.domain == w.domain
    &&& v.stable_ids == w.stable_ids
    &&& v.runs == w.runs
    &&& v.operations.operation_of == w.operations.operation_of
}

proof fn lemma_same_order(w: WorldView, v: WorldView, agent: Entity, text: Option<Seq<char>>)
    requires
        same_ground(w, v),
    ensures
        ordered_policies(v, agent) == ordered_policies(w, agent),
        forall|order: Seq<Entity>|
            #![trigger applied_policies(v, order)]
            applied_policies(v, order) == applied_policies(w, order),
        forall|order: Seq<Entity>|
            #![trigger reduced_patch(v, order)]
            reduced_patch(v, order) == reduced_patch(w, order),
        forall|order: Seq<Entity>|
            #![trigger denial_position(v, order, text, 0)]
            denial_position(v, order, text, 0) == denial_position(w, order, text, 0),
{
    assert((|e: Entity| policy_rank(v, e)) =~= (|e: Entity| policy_rank(w, e)));
    assert forall|order: Seq<Entity>|
        #![trigger applied_policies(v, order)]
        applied_policies(v, order) == applied_policies(w, order) by {
        assert(applied_policies(v, order) =~= applied_policies(w, order));
    }
    assert forall|order: Seq<Entity>|
        #![trigger reduced_patch(v, order)]
        reduced_patch(v, order) == reduced_patch(w, order) by {
        lemma_same_patch(w, v, order);
    }
    assert forall|order: Seq<Entity>|
        #![trigger denial_position(v, order, text, 0)]
        denial_position(v, order, text, 0) == denial_position(w, order, text, 0) by {
        lemma_same_denial(w, v, order, text, 0);
    }
}

proof fn lemma_same_patch(w: WorldView, v: WorldView, order: Seq<Entity>)
    requires
        same_ground(w, v),
    ensures
        reduced_patch(v, order) == reduced_patch(w, order),
    decreases order.len(),
{
    if order.len() > 0 {
        lemma_same_patch(w, v, order.drop_last());
    }
}

proof fn lemma_same_denial(
    w: WorldView,
    v: WorldView,
    order: Seq<Entity>,
    text: Option<Seq<char>>,
    from: int,
)
    requires
        same_ground(w, v),
        0 <= from,
    ensures
        denial_position(v, order, text, from) == denial_position(w, order, text, from),
    decreases order.len() - from,
{
    if from < order.len() {
        lemma_same_denial(w, v, order, text, from + 1);
    }
}

/// Applying the policies of all operations does to an operation what applying its own does.
proof fn lemma_all_policies(w: WorldView, operation: Entity, agent: Entity)
    requires
        awaits_policies(w, operation, agent),
    ensures
        same_operation(policy_step(w, operation), apply_policies(w), operation),
{
    let one = policy_step(w, operation);
    lemma_entities(w.operations.model_inputs.dom());
    let ids = entities_of(w.operations.model_inputs.dom());
    assert(ids.to_set().contains(operation));
    let before = |v: WorldView| same_ground(w, v) && same_operation(w, v, operation);
    let after = |v: WorldView|
        {
            &&& same_operation(one, v, operation)
            &&& v.operations.policy_progress[operation] == PolicyProgress::Accepted
        };
    assert forall|v: WorldView| before(v) implies after(#[trigger] policy_step(v, operation)) by {
        lemma_same_order(w, v, agent, w.operations.model_inputs[operation].prompt_text);
    }
    lemma_fold_reaches(
        ids,
        operation,
        w,
        |w: WorldView, e: Entity| policy_step(w, e),
        before,
        after,
    );
}

/// Whether a policy denies a request with a prompt: the prompt holds the words that it forbids.
pub open spec fn forbids(w: WorldView, e: Entity, prompt: Option<Seq<char>>) -> bool {
    match (w.domain.policies[e].rule, prompt) {
        (PolicyRuleView::DenyPromptContains(words), Some(text)) => exists|i: int|
            0 <= i <= text.len() - words.len() && #[trigger] text.subrange(i, i + words.len())
                == words,
        _ => false,
    }
}

/// Whether a record says that a policy was applied, as it is.
pub open spec fn records_policy(w: WorldView, e: Entity, record: AcceptedPolicyView) -> bool {
    &&& record.id == w.stable_ids[e]
    &&& record.entity == e
    &&& record.revision == w.domain.policies[e].revision
    &&& record.order == w.domain.policies[e].order
    &&& record.point == PolicyPoint::Request
}

/// Whether the first of the policies that apply, and no others, were recorded behind what was
/// recorded before.
pub open spec fn recorded(
    w: WorldView,
    before: Seq<AcceptedPolicyView>,
    after: Seq<AcceptedPolicyView>,
    order: Seq<Entity>,
    n: int,
) -> bool {
    &&& after.len() == before.len() + n
    &&& forall|i: int| 0 <= i < before.len() ==> after[i] == #[trigger] before[i]
    &&& forall|i: int|
        0 <= i < n ==> records_policy(w, #[trigger] order[i], after[before.len() + i])
}

proof fn lemma_denial_at(w: WorldView, order: Seq<Entity>, text: Option<Seq<char>>, from: int, k: int)
    requires
        0 <= from <= k < order.len(),
        forbids(w, order[k], text),
        forall|i: int| 0 <= i < k ==> !forbids(w, #[trigger] order[i], text),
    ensures
        denial_position(w, order, text, from) == k,
    decreases k - from,
{
    if from < k {
        assert(!forbids(w, order[from], text));
        assert(!rule_denies(w.domain.policies[order[from]].rule, text));
        lemma_denial_at(w, order, text, from + 1, k);
    } else {
        assert(rule_denies(w.domain.policies[order[k]].rule, text));
    }
}

proof fn lemma_no_denial(w: WorldView, order: Seq<Entity>, text: Option<Seq<char>>, from: int)
    requires
        0 <= from <= order.len(),
        forall|i: int| 0 <= i < order.len() ==> !forbids(w, #[trigger] order[i], text),
    ensures
        denial_position(w, order, text, from) == order.len(),
    decreases order.len() - from,
{
    if from < order.len() {
        assert(!forbids(w, order[from], text));
        assert(!rule_denies(w.domain.policies[order[from]].rule, text));
        lemma_no_denial(w, order, text, from + 1);
    }
}

/// The first policy that forbids the prompt of a request settles it with its id. The policies up
/// to it are recorded, those behind it are not, and the request is as it was.
pub proof fn law_the_first_forbidding_policy_denies(
    w: WorldView,
    operation: Entity,
    agent: Entity,
    k: int,
)
    requires
        awaits_policies(w, operation, agent),
        0 <= k < ordered_policies(w, agent).len(),
        forbids(
            w,
            ordered_policies(w, agent)[k],
            w.operations.model_inputs[operation].prompt_text,
        ),
        forall|i: int|
            0 <= i < k ==> !forbids(
                w,
                #[trigger] ordered_policies(w, agent)[i],
                w.operations.model_inputs[operation].prompt_text,
            ),
    ensures
        ({
            let t = apply_policies(w);
            let order = ordered_policies(w, agent);
            &&& t.operations.states[operation].phase == OperationPhaseView::Settled(
                OperationOutcomeView::Failure(
                    CanonicalErrorView::PolicyDenied { policy: w.stable_ids[order[k]] },
                ),
            )
            &&& t.operations.states[operation].generation
                == w.operations.states[operation].generation
            &&& t.operations.policy_progress[operation] == PolicyProgress::Accepted
            &&& recorded(
                w,
                w.operations.accepted_policies[operation].0,
                t.operations.accepted_policies[operation].0,
                order,
                k + 1,
            )
            &&& t.operations.model_inputs[operation] == w.operations.model_inputs[operation]
        }),
{
    lemma_all_policies(w, operation, agent);
    lemma_denial_at(
        w,
        ordered_policies(w, agent),
        w.operations.model_inputs[operation].prompt_text,
        0,
        k,
    );
}

/// The patch of a policy, if it is one that patches requests.
pub open spec fn patch_of(w: WorldView, e: Entity) -> Option<RequestPatchView> {
    match w.domain.policies[e].rule {
        PolicyRuleView::PatchRequest(patch) => Some(patch),
        _ => None,
    }
}

/// Whether a policy writes a part of a request.
pub open spec fn writes<V>(
    w: WorldView,
    e: Entity,
    part: spec_fn(RequestPatchView) -> Option<V>,
) -> bool {
    patch_of(w, e) is Some && part(patch_of(w, e)->0) is Some
}

/// Whether a policy is the last that writes a part of a request.
pub open spec fn writes_last<V>(
    w: WorldView,
    order: Seq<Entity>,
    part: spec_fn(RequestPatchView) -> Option<V>,
    k: int,
) -> bool {
    &&& 0 <= k < order.len()
    &&& writes(w, order[k], part)
    &&& forall|i: int| k < i < order.len() ==> !writes(w, #[trigger] order[i], part)
}

/// Whether no policy writes a part of a request.
pub open spec fn writes_none<V>(
    w: WorldView,
    order: Seq<Entity>,
    part: spec_fn(RequestPatchView) -> Option<V>,
) -> bool {
    forall|i: int| 0 <= i < order.len() ==> !writes(w, #[trigger] order[i], part)
}

/// Whether a part of a request is what the last policy that writes it wrote, and as it was where
/// none does.
pub open spec fn last_writer_wins<V>(
    w: WorldView,
    order: Seq<Entity>,
    part: spec_fn(RequestPatchView) -> Option<V>,
    before: Option<V>,
    after: Option<V>,
) -> bool {
    &&& writes_none(w, order, part) ==> after == before
    &&& forall|k: int| #[trigger]
        writes_last(w, order, part, k) ==> after == part(patch_of(w, order[k])->0)
}

/// Whether the parts of two patches are put together by letting the later one win.
spec fn lets_later_win<V>(part: spec_fn(RequestPatchView) -> Option<V>) -> bool {
    &&& part(RequestPatchView::nothing()) is None
    &&& forall|a: RequestPatchView, b: RequestPatchView|
        #![trigger a.followed_by(b)]
        part(a.followed_by(b)) == if part(b) is Some {
            part(b)
        } else {
            part(a)
        }
}

proof fn lemma_last_writer<V>(
    w: WorldView,
    order: Seq<Entity>,
    part: spec_fn(RequestPatchView) -> Option<V>,
)
    requires
        lets_later_win(part),
    ensures
        writes_none(w, order, part) ==> part(reduced_patch(w, order)) is None,
        forall|k: int| #[trigger]
            writes_last(w, order, part, k) ==> part(reduced_patch(w, order)) == part(
                patch_of(w, order[k])->0,
            ),
    decreases order.len(),
{
    if order.len() > 0 {
        let front = order.drop_last();
        let last = order.last();
        let n = order.len() - 1;
        lemma_last_writer(w, front, part);
        assert(order[n] == last);
        if writes_none(w, order, part) {
            assert forall|i: int| 0 <= i < front.len() implies !writes(
                w,
                #[trigger] front[i],
                part,
            ) by {
                assert(front[i] == order[i]);
            }
            assert(!writes(w, order[n], part));
        }
        assert forall|k: int| #[trigger] writes_last(w, order, part, k) implies part(
            reduced_patch(w, order),
        ) == part(patch_of(w, order[k])->0) by {
            if k < n {
                assert(!writes(w, order[n], part));
                assert(front[k] == order[k]);
                assert forall|i: int| k < i < front.len() implies !writes(
                    w,
                    #[trigger] front[i],
                    part,
                ) by {
                    assert(front[i] == order[i]);
                }
                assert(writes_last(w, front, part, k));
            }
        }
    }
}

/// The documents that the patches of policies add, in the order of the policies.
pub open spec fn added_documents(w: WorldView, order: Seq<Entity>) -> Seq<RetrievedDocumentView>
    decreases order.len(),
{
    if order.len() == 0 {
        Seq::empty()
    } else {
        let before = added_documents(w, order.drop_last());
        match patch_of(w, order.last()) {
            Some(patch) => before + patch.extra_context,
            None => before,
        }
    }
}

proof fn lemma_added_documents(w: WorldView, order: Seq<Entity>)
    ensures
        reduced_patch(w, order).extra_context == added_documents(w, order),
    decreases order.len(),
{
    if order.len() > 0 {
        lemma_added_documents(w, order.drop_last());
    } else {
        assert(RequestPatchView::nothing().extra_context =~= Seq::empty());
    }
}

/// Whether each policy that lists tools lists one with a name.
pub open spec fn all_allow(w: WorldView, order: Seq<Entity>, name: Seq<char>) -> bool {
    forall|i: int|
        0 <= i < order.len() && patch_of(w, #[trigger] order[i]) is Some && patch_of(
            w,
            order[i],
        )->0.active_tools is Some ==> patch_of(w, order[i])->0.active_tools->0.contains(name)
}

proof fn lemma_all_allow(w: WorldView, order: Seq<Entity>, name: Seq<char>)
    ensures
        all_allow(w, order, name) <==> match reduced_patch(w, order).active_tools {
            Some(names) => names.contains(name),
            None => true,
        },
    decreases order.len(),
{
    if order.len() > 0 {
        let front = order.drop_last();
        let last = order.last();
        lemma_all_allow(w, front, name);
        assert(order[order.len() - 1] == last);
        assert(all_allow(w, order, name) <==> all_allow(w, front, name) && (patch_of(w, last)
            is Some && patch_of(w, last)->0.active_tools is Some ==> patch_of(
            w,
            last,
        )->0.active_tools->0.contains(name))) by {
            if all_allow(w, order, name) {
                assert forall|i: int|
                    0 <= i < front.len() && patch_of(w, #[trigger] front[i]) is Some && patch_of(
                        w,
                        front[i],
                    )->0.active_tools is Some implies patch_of(
                    w,
                    front[i],
                )->0.active_tools->0.contains(name) by {
                    assert(front[i] == order[i]);
                }
            } else if all_allow(w, front, name) {
                let i = choose|i: int|
                    0 <= i < order.len() && patch_of(w, #[trigger] order[i]) is Some && patch_of(
                        w,
                        order[i],
                    )->0.active_tools is Some && !patch_of(
                        w,
                        order[i],
                    )->0.active_tools->0.contains(name);
                if i < front.len() {
                    assert(front[i] == order[i]);
                }
            }
        }
        if let Some(patch) = patch_of(w, last) {
            let before = reduced_patch(w, front);
            if before.active_tools is Some && patch.active_tools is Some {
                crate::patch::law_allow_lists_are_intersected(before, patch, name);
            }
        }
    }
}

/// Whether some of the tools are left, in their order: those with a name that is allowed.
pub open spec fn tools_left(
    before: Seq<ToolDecisionView>,
    after: Seq<ToolDecisionView>,
    allowed: spec_fn(Seq<char>) -> bool,
) -> bool {
    &&& exists|kept: Seq<int>|
        {
            &&& kept.len() == after.len()
            &&& forall|i: int|
                0 <= i < kept.len() ==> 0 <= #[trigger] kept[i] < before.len() && after[i]
                    == before[kept[i]] && allowed(after[i].name)
            &&& forall|i: int, j: int|
                0 <= i < j < kept.len() ==> #[trigger] kept[i] < #[trigger] kept[j]
        }
    &&& forall|k: int|
        0 <= k < before.len() && allowed((#[trigger] before[k]).name) ==> after.contains(before[k])
}

proof fn lemma_allowed_tools(
    tools: Seq<ToolDecisionView>,
    names: Seq<Seq<char>>,
) -> (kept: Seq<int>)
    ensures
        kept.len() == allowed_tools(tools, names).len(),
        forall|i: int|
            0 <= i < kept.len() ==> 0 <= #[trigger] kept[i] < tools.len() && allowed_tools(
                tools,
                names,
            )[i] == tools[kept[i]] && names.contains(allowed_tools(tools, names)[i].name),
        forall|i: int, j: int| 0 <= i < j < kept.len() ==> #[trigger] kept[i] < #[trigger] kept[j],
        forall|k: int|
            0 <= k < tools.len() && names.contains((#[trigger] tools[k]).name) ==> allowed_tools(
                tools,
                names,
            ).contains(tools[k]),
    decreases tools.len(),
{
    if tools.len() == 0 {
        Seq::empty()
    } else {
        let front = tools.drop_last();
        let before = lemma_allowed_tools(front, names);
        let rest = allowed_tools(front, names);
        let all = allowed_tools(tools, names);
        let n = tools.len() - 1;
        let kept = if names.contains(tools.last().name) {
            before.push(n)
        } else {
            before
        };
        assert forall|i: int| 0 <= i < kept.len() implies 0 <= #[trigger] kept[i] < tools.len()
            && all[i] == tools[kept[i]] && names.contains(all[i].name) by {
            if i < before.len() {
                assert(kept[i] == before[i]);
                assert(front[before[i]] == tools[before[i]]);
                assert(all[i] == rest[i]);
            }
        }
        assert forall|i: int, j: int| 0 <= i < j < kept.len() implies #[trigger] kept[i]
            < #[trigger] kept[j] by {
            assert(kept[i] == before[i]);
            if j < before.len() {
                assert(kept[j] == before[j]);
            }
        }
        assert forall|k: int|
            0 <= k < tools.len() && names.contains((#[trigger] tools[k]).name) implies all.contains(
            tools[k],
        ) by {
            if k < n {
                assert(front[k] == tools[k]);
                let m = choose|m: int| 0 <= m < rest.len() && rest[m] == front[k];
                assert(all[m] == tools[k]);
            } else {
                assert(all[all.len() - 1] == tools[k]);
            }
        }
        kept
    }
}

/// Without a policy that forbids the prompt, a request stays prepared and all policies are
/// recorded. Each part of it is what the last policy that writes it wrote: the instructions, the
/// temperature, the limit of tokens and the choice of tools. Documents are added in the order of
/// the policies, and a tool is left where each policy that lists tools lists it.
pub proof fn law_patches_apply_in_the_order_of_policies(
    w: WorldView,
    operation: Entity,
    agent: Entity,
)
    requires
        awaits_policies(w, operation, agent),
        forall|i: int|
            0 <= i < ordered_policies(w, agent).len() ==> !forbids(
                w,
                #[trigger] ordered_policies(w, agent)[i],
                w.operations.model_inputs[operation].prompt_text,
            ),
    ensures
        ({
            let t = apply_policies(w);
            let order = ordered_policies(w, agent);
            let before = w.operations.model_inputs[operation];
            let after = t.operations.model_inputs[operation];
            &&& t.operations.states[operation] == w.operations.states[operation]
            &&& t.operations.policy_progress[operation] == PolicyProgress::Accepted
            &&& recorded(
                w,
                w.operations.accepted_policies[operation].0,
                t.operations.accepted_policies[operation].0,
                order,
                order.len() as int,
            )
            &&& last_writer_wins(
                w,
                order,
                |p: RequestPatchView| p.instructions,
                Some(before.instructions),
                Some(after.instructions),
            )
            &&& last_writer_wins(
                w,
                order,
                |p: RequestPatchView| p.temperature_bits,
                before.temperature_bits,
                after.temperature_bits,
            )
            &&& last_writer_wins(
                w,
                order,
                |p: RequestPatchView| p.max_tokens,
                before.max_tokens,
                after.max_tokens,
            )
            &&& last_writer_wins(
                w,
                order,
                |p: RequestPatchView| p.tool_choice,
                before.tool_choice,
                after.tool_choice,
            )
            &&& after.documents == before.documents + added_documents(w, order)
            &&& tools_left(
                before.tools,
                after.tools,
                |name: Seq<char>| all_allow(w, order, name),
            )
            &&& after.decision == before.decision
            &&& after.prompt == before.prompt
            &&& after.prompt_text == before.prompt_text
            &&& after.tool_results == before.tool_results
            &&& after.output_schema == before.output_schema
            &&& after.terminal_tool == before.terminal_tool
        }),
{
    let order = ordered_policies(w, agent);
    let before = w.operations.model_inputs[operation];
    let patch = reduced_patch(w, order);
    lemma_all_policies(w, operation, agent);
    lemma_no_denial(w, order, before.prompt_text, 0);
    let after = apply_policies(w).operations.model_inputs[operation];
    assert(after == patch.applied_to(before));
    lemma_last_writer(w, order, |p: RequestPatchView| p.instructions);
    lemma_last_writer(w, order, |p: RequestPatchView| p.temperature_bits);
    lemma_last_writer(w, order, |p: RequestPatchView| p.max_tokens);
    lemma_last_writer(w, order, |p: RequestPatchView| p.tool_choice);
    lemma_some_writer(w, order, |p: RequestPatchView| p.instructions);
    lemma_some_writer(w, order, |p: RequestPatchView| p.temperature_bits);
    lemma_some_writer(w, order, |p: RequestPatchView| p.max_tokens);
    lemma_some_writer(w, order, |p: RequestPatchView| p.tool_choice);
    lemma_added_documents(w, order);
    let allowed = |name: Seq<char>| all_allow(w, order, name);
    assert forall|name: Seq<char>| #[trigger] all_allow(w, order, name) <==> match patch.active_tools {
        Some(names) => names.contains(name),
        None => true,
    } by {
        lemma_all_allow(w, order, name);
    }
    match patch.active_tools {
        Some(names) => {
            let kept = lemma_allowed_tools(before.tools, names);
            assert(tools_left(before.tools, after.tools, allowed)) by {
                assert forall|i: int| 0 <= i < kept.len() implies 0 <= #[trigger] kept[i]
                    < before.tools.len() && after.tools[i] == before.tools[kept[i]] && allowed(
                    after.tools[i].name,
                ) by {
                    assert(after.tools == allowed_tools(before.tools, names));
                    lemma_all_allow(w, order, after.tools[i].name);
                }
                assert forall|k: int|
                    0 <= k < before.tools.len() && allowed(
                        (#[trigger] before.tools[k]).name,
                    ) implies after.tools.contains(before.tools[k]) by {
                    assert(all_allow(w, order, before.tools[k].name));
                }
            }
        },
        None => {
            let kept = Seq::new(before.tools.len(), |i: int| i);
            assert(tools_left(before.tools, after.tools, allowed)) by {
                assert forall|i: int| 0 <= i < kept.len() implies 0 <= #[trigger] kept[i]
                    < before.tools.len() && after.tools[i] == before.tools[kept[i]] && allowed(
                    after.tools[i].name,
                ) by {
                    lemma_all_allow(w, order, after.tools[i].name);
                }
                assert(kept.len() == after.tools.len());
                assert forall|i: int, j: int| 0 <= i < j < kept.len() implies #[trigger] kept[i]
                    < #[trigger] kept[j] by {}
            }
        },
    }
}

/// A patch that no policy writes leaves what it would write alone.
proof fn lemma_some_writer<V>(
    w: WorldView,
    order: Seq<Entity>,
    part: spec_fn(RequestPatchView) -> Option<V>,
)
    ensures
        writes_none(w, order, part) || exists|k: int| #[trigger] writes_last(w, order, part, k),
    decreases order.len(),
{
    if order.len() > 0 {
        let front = order.drop_last();
        let n = order.len() - 1;
        lemma_some_writer(w, front, part);
        if writes(w, order[n], part) {
            assert(writes_last(w, order, part, n));
        } else if !writes_none(w, order, part) {
            let k = choose|k: int| #[trigger] writes_last(w, front, part, k);
            if writes_none(w, front, part) {
                let i = choose|i: int| 0 <= i < order.len() && writes(w, #[trigger] order[i], part);
                assert(front[i] == order[i]);
            }
            assert(front[k] == order[k]);
            assert forall|i: int| k < i < order.len() implies !writes(
                w,
                #[trigger] order[i],
                part,
            ) by {
                if i < n {
                    assert(front[i] == order[i]);
                }
            }
            assert(writes_last(w, order, part, k));
        }
    }
}

/// Another history that policies write precedes the current prompt, which is the last entry of the
/// request's own history. The last policy that writes one wins.
pub proof fn law_the_prompt_follows_another_history(
    w: WorldView,
    operation: Entity,
    agent: Entity,
    k: int,
)
    requires
        awaits_policies(w, operation, agent),
        forall|i: int|
            0 <= i < ordered_policies(w, agent).len() ==> !forbids(
                w,
                #[trigger] ordered_policies(w, agent)[i],
                w.operations.model_inputs[operation].prompt_text,
            ),
    ensures
        ({
            let order = ordered_policies(w, agent);
            let before = w.operations.model_inputs[operation].history;
            let after = apply_policies(w).operations.model_inputs[operation].history;
            let part = |p: RequestPatchView| p.history;
            &&& writes_none(w, order, part) ==> after == before
            &&& writes_last(w, order, part, k) ==> {
                let history = patch_of(w, order[k])->0.history->0;
                &&& before.len() > 0 ==> after.len() == history.len() + 1 && after.last()
                    == before.last() && after.drop_last() == history
                &&& before.len() == 0 ==> after == history
            }
        }),
{
    let order = ordered_policies(w, agent);
    let before = w.operations.model_inputs[operation];
    lemma_all_policies(w, operation, agent);
    lemma_no_denial(w, order, before.prompt_text, 0);
    lemma_last_writer(w, order, |p: RequestPatchView| p.history);
    if writes_last(w, order, |p: RequestPatchView| p.history, k) {
        let history = patch_of(w, order[k])->0.history->0;
        if before.history.len() > 0 {
            assert(history.push(before.history.last()).drop_last() =~= history);
        }
    }
}

/// Provider parameters of a later policy win: they replace what was there, and where both are
/// objects they are merged, with the later members in place of earlier ones.
pub proof fn law_later_parameters_win(
    first: RequestPatchView,
    second: RequestPatchView,
    input: ModelEffectInputView,
)
    ensures
        second.additional_params is None ==> first.followed_by(second).additional_params
            == first.additional_params,
        first.additional_params is None ==> first.followed_by(second).additional_params
            == second.additional_params,
        first.additional_params is Some && second.additional_params is Some && !(json_is_object(
            first.additional_params->0,
        ) && json_is_object(second.additional_params->0)) ==> first.followed_by(
            second,
        ).additional_params == second.additional_params,
        first.additional_params is Some && second.additional_params is Some && json_is_object(
            first.additional_params->0,
        ) && json_is_object(second.additional_params->0) ==> first.followed_by(
            second,
        ).additional_params == Some(
            json_merged(first.additional_params->0, second.additional_params->0),
        ),
        first.additional_params is None ==> first.applied_to(input).additional_params
            == input.additional_params,
        first.additional_params is Some && input.additional_params is None ==> first.applied_to(
            input,
        ).additional_params == first.additional_params,
        first.additional_params is Some && input.additional_params is Some && json_is_object(
            input.additional_params->0,
        ) && json_is_object(first.additional_params->0) ==> first.applied_to(
            input,
        ).additional_params == Some(
            json_merged(input.additional_params->0, first.additional_params->0),
        ),
        first.additional_params is Some && input.additional_params is Some && !(json_is_object(
            input.additional_params->0,
        ) && json_is_object(first.additional_params->0)) ==> first.applied_to(
            input,
        ).additional_params == first.additional_params,
{
}

/// A request that was already judged, or is not prepared, is left alone.
pub proof fn law_policies_are_applied_once(w: WorldView, operation: Entity)
    requires
        !(w.operations.policy_progress.contains_key(operation)
            && w.operations.policy_progress[operation] == PolicyProgress::Pending) || !(
        w.operations.states.contains_key(operation) && w.operations.states[operation].phase
            is Prepared),
    ensures
        policy_step(w, operation) == w,
{
}

} // verus!
