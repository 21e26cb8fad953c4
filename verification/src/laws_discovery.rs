//! What becomes of the tools that a source makes known.

use vstd::prelude::*;

use crate::capability::ToolCapabilityView;
use crate::column::{entities_of, lemma_entities, strictly_ascending, Entity};
use crate::discovery::{
    compared_tools, current_tool, definition_row, definition_with_key, discovered_id,
    first_repeated_key, key_repeated, ordered_definitions, reconcile_discovery_step, refresh_tool,
    repeated_key_message, same_version, with_definitions, without_key, RefreshView,
};
use crate::effect::{
    CanonicalErrorView, DiscoveredToolView, DiscoveryEffectOutputView, EffectOutputView,
    OperationOutcomeView, OperationPhaseView,
};
use crate::run::DiscoveryStateView;
use crate::sorting::{key_le, lemma_sort_rows, row_values, sort_rows};
use crate::text::{decimal_text, lemma_text_le_reflexive, text_le};
use crate::world::WorldView;

verus! {

/// Whether a source waits for a discovery operation, and the operation is settled.
pub open spec fn discovery_settled(
    w: WorldView,
    operation: Entity,
    source: Entity,
    outcome: OperationOutcomeView,
) -> bool {
    &&& w.operations.discovery_inputs.contains_key(operation)
    &&& w.operations.discovery_operation_of.contains_key(operation)
    &&& w.operations.discovery_operation_of[operation] == source
    &&& w.operations.states.contains_key(operation)
    &&& w.operations.states[operation].phase == OperationPhaseView::Settled(outcome)
    &&& w.operations.states[operation].generation == w.domain.sources[source].generation
    &&& !w.operations.discovery_applied.contains_key(operation)
    &&& w.stable_ids.contains_key(source)
    &&& w.tenants.contains_key(source)
    &&& w.domain.sources.contains_key(source)
    &&& w.domain.sources[source].state == (DiscoveryStateView::Refreshing { operation })
}

/// Whether definitions have different keys.
pub open spec fn keys_differ(tools: Seq<DiscoveredToolView>) -> bool {
    forall|i: int, j: int|
        0 <= i < j < tools.len() ==> (#[trigger] tools[i]).key != (#[trigger] tools[j]).key
}

/// Whether a tool is one that a source made known and that is in use.
pub open spec fn known_from(w: WorldView, source: Entity, e: Entity) -> bool {
    &&& w.domain.tools.contains_key(e)
    &&& w.domain.discovery_keys.contains_key(e)
    &&& w.domain.discovered_from.contains_key(e)
    &&& w.domain.discovered_from[e] == source
    &&& !w.domain.retired.contains_key(e)
}

/// Whether a definition describes a tool as it is.
pub open spec fn describes(
    w: WorldView,
    definition: DiscoveredToolView,
    e: Entity,
) -> bool {
    let tool = w.domain.tools[e];
    &&& definition.key == w.domain.discovery_keys[e].0
    &&& definition.name == tool.name
    &&& definition.description == tool.description
    &&& definition.order == tool.order
    &&& definition.revision == tool.revision
}

/// Whether some of the definitions describes a tool as it is.
pub open spec fn still_described(
    w: WorldView,
    tools: Seq<DiscoveredToolView>,
    e: Entity,
) -> bool {
    exists|i: int| 0 <= i < tools.len() && describes(w, #[trigger] tools[i], e)
}

/// Whether the tools of a source have different keys.
pub open spec fn known_keys_differ(w: WorldView, source: Entity) -> bool {
    forall|e: Entity, f: Entity|
        #![trigger known_from(w, source, e), known_from(w, source, f)]
        known_from(w, source, e) && known_from(w, source, f) && e != f
            ==> w.domain.discovery_keys[e].0 != w.domain.discovery_keys[f].0
}

/// A failed discovery leaves its error with the source, and one with another result a mismatch. The
/// tools are as they were.
pub proof fn law_failed_discoveries_leave_the_tools(
    w: WorldView,
    operation: Entity,
    source: Entity,
    outcome: OperationOutcomeView,
)
    requires
        discovery_settled(w, operation, source, outcome),
        match outcome {
            OperationOutcomeView::Success(EffectOutputView::Discovery(_)) => false,
            _ => true,
        },
    ensures
        ({
            let t = reconcile_discovery_step(w, operation);
            &&& t.domain.sources[source].state == DiscoveryStateView::Failed(
                match outcome {
                    OperationOutcomeView::Failure(error) => error,
                    OperationOutcomeView::Success(_) => CanonicalErrorView::EffectKindMismatch,
                },
            )
            &&& t.domain.sources[source].generation == w.domain.sources[source].generation
            &&& t.domain.tools == w.domain.tools
            &&& t.domain.retired == w.domain.retired
            &&& t.operations.discovery_applied.contains_key(operation)
        }),
{
}

proof fn lemma_ordered(tools: Seq<DiscoveredToolView>)
    ensures
        ordered_definitions(tools).len() == tools.len(),
        forall|d: DiscoveredToolView| #[trigger]
            ordered_definitions(tools).contains(d) <==> tools.contains(d),
        keys_differ(tools) ==> keys_differ(ordered_definitions(tools)),
{
    let rows = Seq::new(tools.len(), |i: int| definition_row(tools[i]));
    let sorted = sort_rows(rows);
    let order = ordered_definitions(tools);
    assert(order == row_values(sorted));
    lemma_sort_rows(rows);
    rows.to_multiset_ensures();
    sorted.to_multiset_ensures();
    assert forall|k: int| 0 <= k < order.len() implies tools.contains(#[trigger] order[k])
        && sorted[k] == definition_row(order[k]) by {
        assert(sorted.contains(sorted[k]));
        assert(sorted.to_multiset().count(sorted[k]) > 0);
        assert(rows.contains(sorted[k]));
        let i = choose|i: int| 0 <= i < rows.len() && rows[i] == sorted[k];
        assert(rows[i] == definition_row(tools[i]));
        assert(tools[i] == order[k]);
    }
    assert forall|d: DiscoveredToolView| #[trigger] order.contains(d) <==> tools.contains(d) by {
        if order.contains(d) {
            let k = choose|k: int| 0 <= k < order.len() && order[k] == d;
            assert(tools.contains(order[k]));
        }
        if tools.contains(d) {
            let i = choose|i: int| 0 <= i < tools.len() && tools[i] == d;
            assert(rows[i] == definition_row(d));
            assert(rows.contains(rows[i]));
            assert(rows.to_multiset().count(rows[i]) > 0);
            assert(sorted.contains(rows[i]));
            let k = choose|k: int| 0 <= k < sorted.len() && sorted[k] == rows[i];
            assert(order[k] == d);
        }
    }
    if keys_differ(tools) {
        assert forall|i: int, j: int|
            0 <= i < rows.len() && 0 <= j < rows.len() && i != j implies rows[i] != rows[j] by {
            assert(rows[i] == definition_row(tools[i]) && rows[j] == definition_row(tools[j]));
            assert(tools[i].key != tools[j].key);
        }
        rows.lemma_multiset_has_no_duplicates();
        sorted.lemma_multiset_has_no_duplicates_conv();
        assert forall|i: int, j: int| 0 <= i < j < order.len() implies (#[trigger] order[i]).key
            != (#[trigger] order[j]).key by {
            assert(sorted[i] != sorted[j]);
            assert(sorted[i] == definition_row(order[i]));
            assert(sorted[j] == definition_row(order[j]));
            let a = choose|a: int| 0 <= a < tools.len() && tools[a] == order[i];
            let b = choose|b: int| 0 <= b < tools.len() && tools[b] == order[j];
            assert(a != b);
            assert(tools[a].key != tools[b].key);
        }
    }
}

proof fn lemma_no_repeated_key(tools: Seq<DiscoveredToolView>, from: int)
    requires
        0 <= from,
        keys_differ(tools),
    ensures
        first_repeated_key(tools, from) is None,
    decreases tools.len() - from,
{
    if from < tools.len() {
        assert(!key_repeated(tools, from));
        lemma_no_repeated_key(tools, from + 1);
    }
}

proof fn lemma_some_repeated_key(tools: Seq<DiscoveredToolView>, from: int, i: int, j: int)
    requires
        0 <= from <= j < tools.len(),
        0 <= i < j,
        tools[i].key == tools[j].key,
    ensures
        first_repeated_key(tools, from) is Some,
        exists|a: int, b: int|
            0 <= a < b < tools.len() && (#[trigger] tools[a]).key == (#[trigger] tools[b]).key
                && tools[a].key == first_repeated_key(tools, from)->0,
    decreases tools.len() - from,
{
    if key_repeated(tools, from) {
        let a = choose|a: int| 0 <= a < from && (#[trigger] tools[a]).key == tools[from].key;
        assert(tools[a].key == tools[from].key);
    } else {
        if from == j {
            assert(tools[i].key == tools[j].key);
        }
        lemma_some_repeated_key(tools, from + 1, i, j);
    }
}

/// A discovery that gives two definitions one key is refused, and says which: the tools are as they
/// were.
pub proof fn law_repeated_keys_are_refused(
    w: WorldView,
    operation: Entity,
    source: Entity,
    output: DiscoveryEffectOutputView,
)
    requires
        discovery_settled(
            w,
            operation,
            source,
            OperationOutcomeView::Success(EffectOutputView::Discovery(output)),
        ),
        !keys_differ(output.tools),
    ensures
        ({
            let t = reconcile_discovery_step(w, operation);
            let state = t.domain.sources[source].state;
            &&& state is Failed
            &&& exists|d: DiscoveredToolView|
                {
                    &&& #[trigger] output.tools.contains(d)
                    &&& state == DiscoveryStateView::Failed(
                        CanonicalErrorView::InvalidDiscovery(
                            "duplicate source key `"@ + d.key + "`"@,
                        ),
                    )
                }
            &&& t.domain.tools == w.domain.tools
            &&& t.domain.retired == w.domain.retired
        }),
{
    let order = ordered_definitions(output.tools);
    lemma_ordered(output.tools);
    if keys_differ(order) {
        lemma_ordered_back(output.tools);
    }
    let (i, j) = choose|i: int, j: int|
        0 <= i < j < order.len() && (#[trigger] order[i]).key == (#[trigger] order[j]).key;
    lemma_some_repeated_key(order, 0, i, j);
    let key = first_repeated_key(order, 0)->0;
    let (a, b) = choose|a: int, b: int|
        0 <= a < b < order.len() && (#[trigger] order[a]).key == (#[trigger] order[b]).key
            && order[a].key == key;
    let d = order[a];
    assert(order.contains(d));
    reveal_with_fuel(crate::text::concatenation, 4);
    assert(repeated_key_message(key) =~= "duplicate source key `"@ + key + "`"@);
    assert(output.tools.contains(d));
}

proof fn lemma_ordered_back(tools: Seq<DiscoveredToolView>)
    requires
        keys_differ(ordered_definitions(tools)),
    ensures
        keys_differ(tools),
{
    let rows = Seq::new(tools.len(), |i: int| definition_row(tools[i]));
    let sorted = sort_rows(rows);
    let order = ordered_definitions(tools);
    assert(order == row_values(sorted));
    lemma_sort_rows(rows);
    lemma_ordered(tools);
    rows.to_multiset_ensures();
    sorted.to_multiset_ensures();
    assert forall|i: int, j: int|
        0 <= i < sorted.len() && 0 <= j < sorted.len() && i != j implies sorted[i]
        != sorted[j] by {
        assert(order[i].key != order[j].key);
    }
    sorted.lemma_multiset_has_no_duplicates();
    rows.lemma_multiset_has_no_duplicates_conv();
    assert forall|i: int, j: int| 0 <= i < j < tools.len() implies (#[trigger] tools[i]).key != (
    #[trigger] tools[j]).key by {
        assert(rows[i] != rows[j]);
        assert(rows[i] == definition_row(tools[i]) && rows[j] == definition_row(tools[j]));
        assert(tools.contains(tools[i]) && tools.contains(tools[j]));
        assert(order.contains(tools[i]) && order.contains(tools[j]));
        let a = choose|a: int| 0 <= a < order.len() && order[a] == tools[i];
        let b = choose|b: int| 0 <= b < order.len() && order[b] == tools[j];
        if a < b {
            assert(order[a].key != order[b].key);
        } else if b < a {
            assert(order[b].key != order[a].key);
        }
    }
}

proof fn lemma_definition(tools: Seq<DiscoveredToolView>, key: Seq<char>, from: int)
    requires
        0 <= from,
    ensures
        match definition_with_key(tools, key, from) {
            Some(d) => tools.contains(d) && d.key == key,
            None => forall|i: int| from <= i < tools.len() ==> (#[trigger] tools[i]).key != key,
        },
    decreases tools.len() - from,
{
    if from < tools.len() && tools[from].key != key {
        lemma_definition(tools, key, from + 1);
    }
}

proof fn lemma_without_key(tools: Seq<DiscoveredToolView>, key: Seq<char>)
    ensures
        forall|d: DiscoveredToolView| #[trigger]
            without_key(tools, key).contains(d) <==> tools.contains(d) && d.key != key,
        keys_differ(tools) ==> keys_differ(without_key(tools, key)),
        without_key(tools, key).len() <= tools.len(),
    decreases tools.len(),
{
    if tools.len() > 0 {
        let front = tools.drop_last();
        let last = tools.last();
        lemma_without_key(front, key);
        let rest = without_key(front, key);
        let all = without_key(tools, key);
        assert forall|d: DiscoveredToolView| #[trigger] all.contains(d) <==> tools.contains(d)
            && d.key != key by {
            assert(rest.contains(d) <==> front.contains(d) && d.key != key);
            assert(tools[tools.len() - 1] == last);
            if tools.contains(d) && d != last {
                let k = choose|k: int| 0 <= k < tools.len() && tools[k] == d;
                assert(front[k] == d);
            }
            if front.contains(d) {
                let k = choose|k: int| 0 <= k < front.len() && front[k] == d;
                assert(tools[k] == d);
            }
            if rest.contains(d) {
                let k = choose|k: int| 0 <= k < rest.len() && rest[k] == d;
                assert(all[k] == d);
            }
            if all.contains(d) {
                let k = choose|k: int| 0 <= k < all.len() && all[k] == d;
                if k < rest.len() {
                    assert(rest[k] == d);
                }
            }
            if d == last && last.key != key {
                assert(all[all.len() - 1] == d);
            }
        }
        if keys_differ(tools) {
            assert forall|i: int, j: int| 0 <= i < j < front.len() implies (
            #[trigger] front[i]).key != (#[trigger] front[j]).key by {
                assert(tools[i].key != tools[j].key);
            }
            assert forall|i: int, j: int| 0 <= i < j < all.len() implies (#[trigger] all[i]).key
                != (#[trigger] all[j]).key by {
                assert(all[i] == rest[i]);
                if j < rest.len() {
                    assert(all[j] == rest[j]);
                } else {
                    assert(rest.contains(rest[i]));
                    assert(front.contains(rest[i]));
                    let k = choose|k: int| 0 <= k < front.len() && front[k] == rest[i];
                    assert(tools[k].key != tools[tools.len() - 1].key);
                }
            }
        }
    }
}

/// Whether a definition describes a tool of a source among entities.
spec fn taken_by(
    w: WorldView,
    source: Entity,
    ids: Seq<Entity>,
    d: DiscoveredToolView,
) -> bool {
    exists|e: Entity| #[trigger] ids.contains(e) && known_from(w, source, e) && describes(w, d, e)
}

/// Whether a tool is left as it was.
spec fn tool_kept(w: WorldView, v: WorldView, e: Entity) -> bool {
    &&& v.domain.tools.contains_key(e) == w.domain.tools.contains_key(e)
    &&& v.domain.tools[e] == w.domain.tools[e]
    &&& v.domain.retired.contains_key(e) == w.domain.retired.contains_key(e)
}

/// Whether a tool was retired in a generation.
spec fn tool_retired(w: WorldView, v: WorldView, e: Entity, generation: u64) -> bool {
    &&& v.domain.tools.contains_key(e)
    &&& v.domain.tools[e] == (ToolCapabilityView { retired: true, ..w.domain.tools[e] })
    &&& v.domain.retired.contains_key(e)
    &&& v.domain.retired[e].generation == generation
}

/// Whether two worlds differ at most in their tools and which of them are retired.
spec fn same_but_tools(w: WorldView, v: WorldView) -> bool {
    v == (WorldView {
        domain: crate::world::DomainView {
            tools: v.domain.tools,
            retired: v.domain.retired,
            ..w.domain
        },
        ..w
    })
}

proof fn lemma_compared(
    w: WorldView,
    source: Entity,
    generation: u64,
    desired: Seq<DiscoveredToolView>,
    ids: Seq<Entity>,
)
    requires
        strictly_ascending(ids),
        keys_differ(desired),
        known_keys_differ(w, source),
    ensures
        ({
            let r = ids.fold_left(
                RefreshView { world: w, desired },
                |r: RefreshView, e: Entity| refresh_tool(r, source, generation, e),
            );
            &&& same_but_tools(w, r.world)
            &&& keys_differ(r.desired)
            &&& r.desired.len() <= desired.len()
            &&& forall|d: DiscoveredToolView| #[trigger]
                r.desired.contains(d) <==> desired.contains(d) && !taken_by(w, source, ids, d)
            &&& forall|e: Entity|
                #![trigger tool_kept(w, r.world, e)]
                #![trigger tool_retired(w, r.world, e, generation)]
                if ids.contains(e) && known_from(w, source, e) && !still_described(w, desired, e) {
                    tool_retired(w, r.world, e, generation)
                } else {
                    tool_kept(w, r.world, e)
                }
        }),
    decreases ids.len(),
{
    reveal_with_fuel(Seq::fold_left, 2);
    let step = |r: RefreshView, e: Entity| refresh_tool(r, source, generation, e);
    let start = RefreshView { world: w, desired };
    if ids.len() > 0 {
        let front = ids.drop_last();
        let last = ids.last();
        lemma_compared(w, source, generation, desired, front);
        let r = front.fold_left(start, step);
        let t = ids.fold_left(start, step);
        assert(t == refresh_tool(r, source, generation, last));
        assert(!front.contains(last)) by {
            if front.contains(last) {
                let k = choose|k: int| 0 <= k < front.len() && front[k] == last;
                assert(ids[k].0 < ids[ids.len() - 1].0);
            }
        }
        assert forall|e: Entity| #[trigger] ids.contains(e) <==> front.contains(e) || e == last by {
            if ids.contains(e) && e != last {
                let k = choose|k: int| 0 <= k < ids.len() && ids[k] == e;
                assert(front[k] == e);
            }
            if front.contains(e) {
                let k = choose|k: int| 0 <= k < front.len() && front[k] == e;
                assert(ids[k] == e);
            }
            assert(ids[ids.len() - 1] == last);
        }
        assert(tool_kept(w, r.world, last));
        assert(current_tool(r.world, source, last) == known_from(w, source, last));
        lemma_taken(w, source, front, ids, last);
        if known_from(w, source, last) {
            let key = w.domain.discovery_keys[last].0;
            let found = definition_with_key(r.desired, key, 0);
            lemma_definition(r.desired, key, 0);
            lemma_without_key(r.desired, key);
            lemma_match(w, source, desired, front, r.desired, last);
            assert(still_described(w, desired, last) <==> found is Some && same_version(
                w.domain.tools[last],
                found->0,
            ));
            if still_described(w, desired, last) {
                assert forall|d: DiscoveredToolView| #[trigger]
                    t.desired.contains(d) <==> desired.contains(d) && !taken_by(
                    w,
                    source,
                    ids,
                    d,
                ) by {
                    assert(t.desired.contains(d) <==> r.desired.contains(d) && d.key != key);
                    if r.desired.contains(d) && d.key == key {
                        lemma_same_definition(r.desired, d, found->0);
                    }
                }
            } else {
                assert forall|d: DiscoveredToolView| #[trigger]
                    t.desired.contains(d) <==> desired.contains(d) && !taken_by(
                    w,
                    source,
                    ids,
                    d,
                ) by {
                    if desired.contains(d) && describes(w, d, last) {
                        let i = choose|i: int| 0 <= i < desired.len() && desired[i] == d;
                        assert(describes(w, desired[i], last));
                    }
                }
            }
        }
        assert forall|e: Entity|
            #![trigger tool_kept(w, t.world, e)]
            #![trigger tool_retired(w, t.world, e, generation)]
            if ids.contains(e) && known_from(w, source, e) && !still_described(w, desired, e) {
                tool_retired(w, t.world, e, generation)
            } else {
                tool_kept(w, t.world, e)
            } by {
            if e != last {
                assert(if front.contains(e) && known_from(w, source, e) && !still_described(
                    w,
                    desired,
                    e,
                ) {
                    tool_retired(w, r.world, e, generation)
                } else {
                    tool_kept(w, r.world, e)
                });
            }
        }
    } else {
        assert forall|d: DiscoveredToolView| #[trigger]
            desired.contains(d) implies !taken_by(w, source, ids, d) by {
            if taken_by(w, source, ids, d) {
                let e = choose|e: Entity| #[trigger]
                    ids.contains(e) && known_from(w, source, e) && describes(w, d, e);
                assert(ids.contains(e));
            }
        }
    }
}

proof fn lemma_same_definition(
    tools: Seq<DiscoveredToolView>,
    a: DiscoveredToolView,
    b: DiscoveredToolView,
)
    requires
        keys_differ(tools),
        tools.contains(a),
        tools.contains(b),
        a.key == b.key,
    ensures
        a == b,
{
    let i = choose|i: int| 0 <= i < tools.len() && tools[i] == a;
    let j = choose|j: int| 0 <= j < tools.len() && tools[j] == b;
    if i < j {
        assert(tools[i].key != tools[j].key);
    } else if j < i {
        assert(tools[j].key != tools[i].key);
    }
}

/// One more tool takes the definitions that describe it.
proof fn lemma_taken(
    w: WorldView,
    source: Entity,
    front: Seq<Entity>,
    ids: Seq<Entity>,
    last: Entity,
)
    requires
        forall|e: Entity| #[trigger] ids.contains(e) <==> front.contains(e) || e == last,
    ensures
        forall|d: DiscoveredToolView| #[trigger]
            taken_by(w, source, ids, d) <==> taken_by(w, source, front, d) || known_from(
                w,
                source,
                last,
            ) && describes(w, d, last),
{
    assert forall|d: DiscoveredToolView| #[trigger]
        taken_by(w, source, ids, d) <==> taken_by(w, source, front, d) || known_from(
            w,
            source,
            last,
        ) && describes(w, d, last) by {
        if taken_by(w, source, ids, d) {
            let e = choose|e: Entity| #[trigger]
                ids.contains(e) && known_from(w, source, e) && describes(w, d, e);
            if e != last {
                assert(front.contains(e));
            }
        }
        if taken_by(w, source, front, d) {
            let e = choose|e: Entity| #[trigger]
                front.contains(e) && known_from(w, source, e) && describes(w, d, e);
            assert(ids.contains(e));
        }
        assert(ids.contains(last));
    }
}

/// A tool is described by the definitions exactly where it is by those that are left for it.
proof fn lemma_match(
    w: WorldView,
    source: Entity,
    desired: Seq<DiscoveredToolView>,
    front: Seq<Entity>,
    left: Seq<DiscoveredToolView>,
    last: Entity,
)
    requires
        known_from(w, source, last),
        known_keys_differ(w, source),
        !front.contains(last),
        keys_differ(left),
        forall|d: DiscoveredToolView| #[trigger]
            left.contains(d) <==> desired.contains(d) && !taken_by(w, source, front, d),
    ensures
        still_described(w, desired, last) <==> definition_with_key(
            left,
            w.domain.discovery_keys[last].0,
            0,
        ) is Some && same_version(
            w.domain.tools[last],
            definition_with_key(left, w.domain.discovery_keys[last].0, 0)->0,
        ),
{
    let key = w.domain.discovery_keys[last].0;
    let found = definition_with_key(left, key, 0);
    lemma_definition(left, key, 0);
    if still_described(w, desired, last) {
        let i = choose|i: int| 0 <= i < desired.len() && describes(w, #[trigger] desired[i], last);
        let d = desired[i];
        assert(desired.contains(d));
        if taken_by(w, source, front, d) {
            let e = choose|e: Entity| #[trigger]
                front.contains(e) && known_from(w, source, e) && describes(w, d, e);
            assert(known_from(w, source, e) && known_from(w, source, last));
            assert(e != last);
        }
        assert(left.contains(d));
        let k = choose|k: int| 0 <= k < left.len() && left[k] == d;
        assert(left[k].key == key);
        lemma_same_definition(left, d, found->0);
    }
    if found is Some && same_version(w.domain.tools[last], found->0) {
        assert(desired.contains(found->0));
        let i = choose|i: int| 0 <= i < desired.len() && desired[i] == found->0;
        assert(describes(w, desired[i], last));
    }
}

/// Whether an entity is a new tool for a definition of a source.
pub open spec fn is_new_tool(
    w: WorldView,
    v: WorldView,
    source: Entity,
    d: DiscoveredToolView,
    e: Entity,
) -> bool {
    &&& w.next <= e.0
    &&& v.domain.tools.contains_key(e)
    &&& v.domain.tools[e].name == d.name
    &&& v.domain.tools[e].description == d.description
    &&& v.domain.tools[e].parameters == d.parameters
    &&& v.domain.tools[e].order == d.order
    &&& v.domain.tools[e].revision == d.revision
    &&& !v.domain.tools[e].retired
    &&& v.domain.discovered_from.contains_key(e)
    &&& v.domain.discovered_from[e] == source
    &&& v.domain.discovery_keys.contains_key(e)
    &&& v.domain.discovery_keys[e].0 == d.key
    &&& v.tenants[e] == w.tenants[source]
    &&& v.stable_ids[e] == "discovery/"@ + w.stable_ids[source] + "/"@ + decimal_text(
        w.domain.sources[source].generation as nat,
    ) + "/"@ + d.key
}

proof fn lemma_discovered_id(source: Seq<char>, generation: u64, key: Seq<char>)
    ensures
        discovered_id(source, generation, key) == "discovery/"@ + source + "/"@ + decimal_text(
            generation as nat,
        ) + "/"@ + key,
{
    reveal_with_fuel(crate::text::concatenation, 7);
    assert(discovered_id(source, generation, key) =~= "discovery/"@ + source + "/"@ + decimal_text(
        generation as nat,
    ) + "/"@ + key);
}

proof fn lemma_new_tools(
    w: WorldView,
    v: WorldView,
    source: Entity,
    definitions: Seq<DiscoveredToolView>,
)
    requires
        source.0 < w.next,
        v.next == w.next,
        v.tenants == w.tenants,
        v.stable_ids == w.stable_ids,
        w.next + definitions.len() <= u64::MAX,
    ensures
        ({
            let t = with_definitions(
                v,
                source,
                w.domain.sources[source].generation,
                definitions,
            );
            &&& t.next == w.next + definitions.len()
            &&& t.operations == v.operations
            &&& t.domain.retired == v.domain.retired
            &&& t.domain.sources == v.domain.sources
            &&& forall|i: int|
                0 <= i < definitions.len() ==> is_new_tool(
                    w,
                    t,
                    source,
                    #[trigger] definitions[i],
                    Entity((w.next + i) as u64),
                )
            &&& forall|e: Entity|
                #![trigger t.domain.tools[e]]
                #![trigger t.domain.tools.contains_key(e)]
                e.0 < w.next ==> t.domain.tools.contains_key(e) == v.domain.tools.contains_key(e)
                    && t.domain.tools[e] == v.domain.tools[e]
        }),
    decreases definitions.len(),
{
    if definitions.len() > 0 {
        let front = definitions.drop_last();
        lemma_new_tools(w, v, source, front);
        let generation = w.domain.sources[source].generation;
        let before = with_definitions(v, source, generation, front);
        let t = with_definitions(v, source, generation, definitions);
        lemma_discovered_id(w.stable_ids[source], generation, definitions.last().key);
        assert forall|i: int| 0 <= i < definitions.len() implies is_new_tool(
            w,
            t,
            source,
            #[trigger] definitions[i],
            Entity((w.next + i) as u64),
        ) by {
            if i < front.len() {
                assert(front[i] == definitions[i]);
                assert(is_new_tool(w, before, source, front[i], Entity((w.next + i) as u64)));
            }
        }
    }
}

/// A discovery with different keys brings the tools of its source up to date. A tool stays where a
/// definition describes it as it is, and is retired otherwise. Each definition that describes no
/// tool becomes a new one, in the tenant of the source and under an id made from the source, the
/// generation and the key. Tools of others stay, and the source waits for nothing any more. (The
/// entities must have numbers left.)
pub proof fn law_discoveries_bring_the_tools_up_to_date(
    w: WorldView,
    operation: Entity,
    source: Entity,
    output: DiscoveryEffectOutputView,
)
    requires
        discovery_settled(
            w,
            operation,
            source,
            OperationOutcomeView::Success(EffectOutputView::Discovery(output)),
        ),
        keys_differ(output.tools),
        known_keys_differ(w, source),
        w.domain.discovery_keys.dom().finite(),
        source.0 < w.next,
        forall|e: Entity| #[trigger] w.domain.tools.contains_key(e) ==> e.0 < w.next,
        w.next + output.tools.len() <= u64::MAX,
    ensures
        ({
            let t = reconcile_discovery_step(w, operation);
            let generation = w.domain.sources[source].generation;
            &&& t.domain.sources[source].state is Idle
            &&& t.operations.discovery_applied.contains_key(operation)
            &&& forall|e: Entity| #[trigger]
                w.domain.tools.contains_key(e) ==> {
                    &&& t.domain.tools.contains_key(e)
                    &&& known_from(w, source, e) && !still_described(w, output.tools, e) ==> {
                        &&& t.domain.tools[e].retired
                        &&& t.domain.tools[e].name == w.domain.tools[e].name
                        &&& t.domain.retired.contains_key(e)
                        &&& t.domain.retired[e].generation == generation
                    }
                    &&& !known_from(w, source, e) || still_described(w, output.tools, e) ==> {
                        &&& t.domain.tools[e] == w.domain.tools[e]
                        &&& t.domain.retired.contains_key(e) == w.domain.retired.contains_key(e)
                    }
                }
            &&& forall|d: DiscoveredToolView| #[trigger]
                output.tools.contains(d) && !(exists|e: Entity| #[trigger]
                    known_from(w, source, e) && describes(w, d, e)) ==> exists|e: Entity| #[trigger]
                    is_new_tool(w, t, source, d, e)
        }),
{
    let definitions = ordered_definitions(output.tools);
    let generation = w.domain.sources[source].generation;
    let ids = entities_of(w.domain.discovery_keys.dom());
    lemma_ordered(output.tools);
    lemma_no_repeated_key(definitions, 0);
    lemma_entities(w.domain.discovery_keys.dom());
    lemma_compared(w, source, generation, definitions, ids);
    let r = compared_tools(w, source, definitions);
    lemma_new_tools(w, r.world, source, r.desired);
    let made = with_definitions(r.world, source, generation, r.desired);
    let t = reconcile_discovery_step(w, operation);
    assert(t.domain.tools == made.domain.tools);
    assert(t.domain.retired == r.world.domain.retired);
    assert forall|e: Entity| #[trigger] w.domain.tools.contains_key(e) implies {
        &&& t.domain.tools.contains_key(e)
        &&& known_from(w, source, e) && !still_described(w, output.tools, e) ==> {
            &&& t.domain.tools[e].retired
            &&& t.domain.tools[e].name == w.domain.tools[e].name
            &&& t.domain.retired.contains_key(e)
            &&& t.domain.retired[e].generation == generation
        }
        &&& !known_from(w, source, e) || still_described(w, output.tools, e) ==> {
            &&& t.domain.tools[e] == w.domain.tools[e]
            &&& t.domain.retired.contains_key(e) == w.domain.retired.contains_key(e)
        }
    } by {
        lemma_same_descriptions(w, output.tools, definitions, e);
        if known_from(w, source, e) {
            assert(ids.to_set().contains(e));
        }
        assert(tool_kept(w, r.world, e) || tool_retired(w, r.world, e, generation));
    }
    assert forall|d: DiscoveredToolView| #[trigger]
        output.tools.contains(d) && !(exists|e: Entity| #[trigger]
            known_from(w, source, e) && describes(w, d, e)) implies exists|e: Entity| #[trigger]
        is_new_tool(w, t, source, d, e) by {
        assert(definitions.contains(d));
        if taken_by(w, source, ids, d) {
            let e = choose|e: Entity| #[trigger]
                ids.contains(e) && known_from(w, source, e) && describes(w, d, e);
            assert(known_from(w, source, e) && describes(w, d, e));
        }
        assert(r.desired.contains(d));
        let i = choose|i: int| 0 <= i < r.desired.len() && r.desired[i] == d;
        let e = Entity((w.next + i) as u64);
        assert(is_new_tool(w, made, source, r.desired[i], e));
        assert(is_new_tool(w, t, source, d, e));
    }
}

proof fn lemma_same_descriptions(
    w: WorldView,
    tools: Seq<DiscoveredToolView>,
    order: Seq<DiscoveredToolView>,
    e: Entity,
)
    requires
        forall|d: DiscoveredToolView| #[trigger] order.contains(d) <==> tools.contains(d),
    ensures
        still_described(w, order, e) == still_described(w, tools, e),
{
    if still_described(w, tools, e) {
        let i = choose|i: int| 0 <= i < tools.len() && describes(w, #[trigger] tools[i], e);
        assert(tools.contains(tools[i]));
        assert(order.contains(tools[i]));
        let k = choose|k: int| 0 <= k < order.len() && order[k] == tools[i];
        assert(describes(w, order[k], e));
    }
    if still_described(w, order, e) {
        let i = choose|i: int| 0 <= i < order.len() && describes(w, #[trigger] order[i], e);
        assert(order.contains(order[i]));
        assert(tools.contains(order[i]));
        let k = choose|k: int| 0 <= k < tools.len() && tools[k] == order[i];
        assert(describes(w, tools[k], e));
    }
}

/// Definitions are taken in the order that they state, then by their name, then by their key.
pub proof fn law_definitions_stand_in_their_order(tools: Seq<DiscoveredToolView>, i: int, j: int)
    requires
        0 <= i < j < ordered_definitions(tools).len(),
    ensures
        ({
            let a = ordered_definitions(tools)[i];
            let b = ordered_definitions(tools)[j];
            &&& a.order <= b.order
            &&& a.order == b.order ==> text_le(a.name, b.name)
            &&& a.order == b.order && a.name == b.name ==> text_le(a.key, b.key)
        }),
{
    let rows = Seq::new(tools.len(), |k: int| definition_row(tools[k]));
    let sorted = sort_rows(rows);
    let order = ordered_definitions(tools);
    assert(order == row_values(sorted));
    lemma_sort_rows(rows);
    rows.to_multiset_ensures();
    sorted.to_multiset_ensures();
    assert forall|k: int| 0 <= k < sorted.len() implies (#[trigger] sorted[k]) == definition_row(
        order[k],
    ) by {
        assert(sorted.contains(sorted[k]));
        assert(sorted.to_multiset().count(sorted[k]) > 0);
        assert(rows.contains(sorted[k]));
        let m = choose|m: int| 0 <= m < rows.len() && rows[m] == sorted[k];
        assert(rows[m] == definition_row(tools[m]));
    }
    let x = sorted[i].0;
    let y = sorted[j].0;
    assert(key_le(x, y));
    reveal_with_fuel(key_le, 5);
    assert(sorted[i] == definition_row(order[i]));
    assert(sorted[j] == definition_row(order[j]));
    assert(x.drop_first()[0] == x[1] && y.drop_first()[0] == y[1]);
    assert(x.drop_first().drop_first()[0] == x[2] && y.drop_first().drop_first()[0] == y[2]);
    lemma_text_le_reflexive(order[i].name);
    lemma_text_le_reflexive(order[i].key);
}

} // verus!
