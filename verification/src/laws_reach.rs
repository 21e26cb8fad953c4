//! No run, source or acknowledgement is passed over.

use vstd::prelude::*;

use crate::capability::{AcceptedPolicyView, PolicyPoint};
use crate::column::{entities_of, lemma_entities, sources_of, Entity};
use crate::debug::{accepted_by, accepted_of, accepted_rank, AcceptedPolicyDebugView};
use crate::discovery::{
    compared_tools, reconcile_discoveries, reconcile_discovery_step, refresh_tool,
    with_definitions, RefreshView,
};
use crate::effect::DiscoveredToolView;
use crate::fold::{lemma_fold_invariant, lemma_fold_reaches};
use crate::ingest::{observe_all, observe_step};
use crate::message::{MessageView, UserContentView};
use crate::publish::{
    deliver_terminal, publish_all, publish_step, terminal_item, with_publication,
};
use crate::sorting::{key_le, lemma_sort_rows, row_values, sort_rows, KeyPartView};
use crate::streams::StreamingView;
use crate::text::{lemma_text_le_reflexive, text_le};
use crate::transcript::is_plain_text;
use crate::world::WorldView;

verus! {

proof fn lemma_publishing_keeps(s: StreamingView, other: Entity)
    ensures
        publish_step(s, other).world.runs.states == s.world.runs.states,
        forall|run: Entity|
            run != other ==> #[trigger] publish_step(s, other).world.runs.published.contains_key(
                run,
            ) == s.world.runs.published.contains_key(run),
{
    if s.world.runs.states.contains_key(other) {
        if let Some(item) = terminal_item(s.world.runs.states[other]) {
            let marked = StreamingView { world: with_publication(s.world, other, true), ..s };
            lemma_fold_invariant(
                sources_of(s.world.runs.subscription_of, other),
                marked,
                |s: StreamingView, e: Entity| deliver_terminal(s, e, item),
                |t: StreamingView|
                    {
                        &&& t.world.runs.states == marked.world.runs.states
                        &&& t.world.runs.published == marked.world.runs.published
                    },
            );
        }
    }
}

proof fn lemma_published_after(s: StreamingView, run: Entity)
    requires
        s.world.runs.states.contains_key(run),
        s.world.runs.states[run] is Completed || s.world.runs.states[run] is Failed
            || s.world.runs.states[run] is Cancelled,
    ensures
        publish_step(s, run).world.runs.published.contains_key(run),
{
    let item = terminal_item(s.world.runs.states[run])->0;
    let marked = StreamingView { world: with_publication(s.world, run, true), ..s };
    lemma_fold_invariant(
        sources_of(s.world.runs.subscription_of, run),
        marked,
        |s: StreamingView, e: Entity| deliver_terminal(s, e, item),
        |t: StreamingView| t.world.runs.published == marked.world.runs.published,
    );
}

/// Publishing passes over no run: each that is over counts as published afterwards, and each that
/// is not does not.
pub proof fn law_every_outcome_is_published(s: StreamingView, run: Entity)
    requires
        s.world.runs.states.dom().finite(),
        s.world.runs.states.contains_key(run),
    ensures
        ({
            let state = s.world.runs.states[run];
            let over = state is Completed || state is Failed || state is Cancelled;
            publish_all(s).world.runs.published.contains_key(run) == over
        }),
        publish_all(s).world.runs.states == s.world.runs.states,
{
    let state = s.world.runs.states[run];
    let over = state is Completed || state is Failed || state is Cancelled;
    lemma_entities(s.world.runs.states.dom());
    let ids = entities_of(s.world.runs.states.dom());
    assert(ids.to_set().contains(run));
    let step = |s: StreamingView, e: Entity| publish_step(s, e);
    let before = |t: StreamingView| t.world.runs.states == s.world.runs.states;
    let after = |t: StreamingView|
        {
            &&& t.world.runs.states == s.world.runs.states
            &&& t.world.runs.published.contains_key(run) == over
        };
    assert forall|t: StreamingView, e: Entity| e != run && before(t) implies before(
        #[trigger] step(t, e),
    ) by {
        lemma_publishing_keeps(t, e);
    }
    assert forall|t: StreamingView| before(t) implies after(#[trigger] step(t, run)) by {
        lemma_publishing_keeps(t, run);
        if over {
            lemma_published_after(t, run);
        }
    }
    assert forall|t: StreamingView, e: Entity| after(t) implies after(#[trigger] step(t, e)) by {
        lemma_publishing_keeps(t, e);
        if e == run {
            if over {
                lemma_published_after(t, run);
            }
        }
    }
    lemma_fold_reaches(ids, run, s, step, before, after);
}

proof fn lemma_definitions_keep(
    w: WorldView,
    source: Entity,
    generation: u64,
    definitions: Seq<DiscoveredToolView>,
)
    ensures
        with_definitions(w, source, generation, definitions).operations == w.operations,
    decreases definitions.len(),
{
    if definitions.len() > 0 {
        lemma_definitions_keep(w, source, generation, definitions.drop_last());
    }
}

proof fn lemma_refresh_keeps(w: WorldView, operation: Entity)
    ensures
        ({
            let t = reconcile_discovery_step(w, operation);
            &&& t.operations.states == w.operations.states
            &&& t.operations.discovery_inputs == w.operations.discovery_inputs
            &&& t.operations.discovery_operation_of == w.operations.discovery_operation_of
            &&& forall|e: Entity| #[trigger]
                w.operations.discovery_applied.contains_key(e)
                    ==> t.operations.discovery_applied.contains_key(e)
            &&& forall|e: Entity|
                e != operation ==> #[trigger] t.operations.discovery_applied.contains_key(e)
                    == w.operations.discovery_applied.contains_key(e)
        }),
{
    let source = w.operations.discovery_operation_of[operation];
    let generation = w.domain.sources[source].generation;
    assert forall|definitions: Seq<DiscoveredToolView>| #[trigger]
        compared_tools(w, source, definitions).world.operations == w.operations by {
        lemma_fold_invariant(
            entities_of(w.domain.discovery_keys.dom()),
            RefreshView { world: w, desired: definitions },
            |r: RefreshView, e: Entity| refresh_tool(r, source, generation, e),
            |r: RefreshView| r.world.operations == w.operations,
        );
    }
    assert forall|v: WorldView, definitions: Seq<DiscoveredToolView>| #[trigger]
        with_definitions(v, source, generation, definitions).operations == v.operations by {
        lemma_definitions_keep(v, source, generation, definitions);
    }
}

/// Reconciling passes over no discovery: each that is settled counts as applied afterwards.
pub proof fn law_every_settled_discovery_is_applied(w: WorldView, operation: Entity)
    requires
        w.operations.discovery_inputs.dom().finite(),
        w.operations.discovery_inputs.contains_key(operation),
        w.operations.discovery_operation_of.contains_key(operation),
        w.operations.states.contains_key(operation),
        w.operations.states[operation].phase is Settled,
    ensures
        reconcile_discoveries(w).operations.discovery_applied.contains_key(operation),
{
    lemma_entities(w.operations.discovery_inputs.dom());
    let ids = entities_of(w.operations.discovery_inputs.dom());
    assert(ids.to_set().contains(operation));
    let step = |w: WorldView, e: Entity| reconcile_discovery_step(w, e);
    let before = |v: WorldView|
        {
            &&& v.operations.discovery_inputs == w.operations.discovery_inputs
            &&& v.operations.discovery_operation_of == w.operations.discovery_operation_of
            &&& v.operations.states == w.operations.states
        };
    let after = |v: WorldView| v.operations.discovery_applied.contains_key(operation);
    assert forall|v: WorldView, e: Entity| e != operation && before(v) implies before(
        #[trigger] step(v, e),
    ) by {
        lemma_refresh_keeps(v, e);
    }
    assert forall|v: WorldView| before(v) implies after(#[trigger] step(v, operation)) by {
        lemma_refresh_keeps(v, operation);
    }
    assert forall|v: WorldView, e: Entity| after(v) implies after(#[trigger] step(v, e)) by {
        lemma_refresh_keeps(v, e);
    }
    lemma_fold_reaches(ids, operation, w, step, before, after);
}

/// Acknowledgements take effect one after the other.
pub proof fn law_acknowledgements_take_effect_in_order(
    w: WorldView,
    ids: Seq<Seq<char>>,
    id: Seq<char>,
)
    ensures
        observe_all(w, Seq::empty()) == w,
        observe_all(w, ids.push(id)) == observe_step(observe_all(w, ids), id),
{
    reveal_with_fuel(Seq::fold_left, 2);
    assert(ids.push(id).drop_last() =~= ids);
}

/// A prompt is plain exactly where it is a message of the user with a text and nothing else.
pub proof fn law_plain_prompts_are_one_text(message: MessageView, text: Seq<char>)
    ensures
        is_plain_text(MessageView::User { content: seq![UserContentView::Text(text)] }),
        is_plain_text(message) ==> message is User && message->User_content.len() == 1
            && message->User_content[0] is Text,
        message is User && message->User_content.len() != 1 ==> !is_plain_text(message),
        !(message is User) ==> !is_plain_text(message),
{
}

/// The accepted policies of an operation are shown as they were recorded, those of one point in the
/// order that they state, and among equals in the order of their ids.
pub proof fn law_accepted_policies_are_shown_in_order(w: WorldView, operation: Entity)
    requires
        w.operations.accepted_policies.contains_key(operation),
    ensures
        ({
            let shown = accepted_of(w, operation);
            let recorded = w.operations.accepted_policies[operation].0;
            &&& shown.len() == recorded.len()
            &&& forall|i: int, j: int|
                0 <= i < j < shown.len() && (#[trigger] shown[i]).point == (
                #[trigger] shown[j]).point ==> shown[i].order <= shown[j].order && (shown[i].order
                    == shown[j].order ==> text_le(shown[i].id, shown[j].id))
            &&& forall|k: int|
                0 <= k < recorded.len() ==> exists|i: int|
                    0 <= i < shown.len() && (#[trigger] shown[i]).id == (
                    #[trigger] recorded[k]).id && shown[i].revision == recorded[k].revision
                        && shown[i].order == recorded[k].order && shown[i].point
                        == recorded[k].point
        }),
{
    let recorded = accepted_by(w, operation);
    let rows = Seq::new(recorded.len(), |i: int| accepted_rank(recorded[i]));
    let sorted = sort_rows(rows);
    let shown = accepted_of(w, operation);
    assert(shown == row_values(sorted));
    lemma_sort_rows(rows);
    rows.to_multiset_ensures();
    sorted.to_multiset_ensures();
    assert forall|k: int| 0 <= k < sorted.len() implies (#[trigger] sorted[k]).0 == seq![
        KeyPartView::Number(crate::policy::point_rank(shown[k].point) as u64),
        KeyPartView::Number(shown[k].order as u64),
        KeyPartView::Text(shown[k].id),
    ] by {
        assert(sorted.contains(sorted[k]));
        assert(sorted.to_multiset().count(sorted[k]) > 0);
        assert(rows.contains(sorted[k]));
        let i = choose|i: int| 0 <= i < rows.len() && rows[i] == sorted[k];
        assert(rows[i] == accepted_rank(recorded[i]));
    }
    assert forall|i: int, j: int|
        0 <= i < j < shown.len() && (#[trigger] shown[i]).point == (
        #[trigger] shown[j]).point implies shown[i].order <= shown[j].order && (shown[i].order
        == shown[j].order ==> text_le(shown[i].id, shown[j].id)) by {
        let x = sorted[i].0;
        let y = sorted[j].0;
        assert(key_le(x, y));
        reveal_with_fuel(key_le, 5);
        assert(x.drop_first()[0] == x[1] && y.drop_first()[0] == y[1]);
        assert(x.drop_first().drop_first()[0] == x[2] && y.drop_first().drop_first()[0] == y[2]);
        assert(x[1] == KeyPartView::Number(shown[i].order as u64));
        assert(y[1] == KeyPartView::Number(shown[j].order as u64));
        assert(x[2] == KeyPartView::Text(shown[i].id));
        assert(y[2] == KeyPartView::Text(shown[j].id));
        lemma_text_le_reflexive(shown[i].id);
    }
    assert forall|k: int| 0 <= k < recorded.len() implies exists|i: int|
        0 <= i < shown.len() && (#[trigger] shown[i]).id == (#[trigger] recorded[k]).id
            && shown[i].revision == recorded[k].revision && shown[i].order == recorded[k].order
            && shown[i].point == recorded[k].point by {
        assert(rows[k] == accepted_rank(recorded[k]));
        assert(rows.contains(rows[k]));
        assert(rows.to_multiset().count(rows[k]) > 0);
        assert(sorted.contains(rows[k]));
        let i = choose|i: int| 0 <= i < sorted.len() && sorted[i] == rows[k];
        assert(shown[i].id == recorded[k].id);
    }
}

} // verus!
