//! Texts, counts, acknowledgements and other details that more than one part relies on.

use vstd::prelude::*;

use crate::apply::apply_delta;
use crate::column::{lemma_sources, sources_of, Entity};
use crate::debug::{
    children_lines, children_of, escaped, graph_text, operation_lines, operations_lines,
    RunExplanationView,
};
use crate::drive::{after_item, after_reading};
use crate::effect::{CanonicalErrorView, EffectDeltaView, OperationKind};
use crate::error_text::canonical_error_text;
use crate::fold::lemma_fold_invariant;
use crate::handle::{stream_next, RunStreamView, RuntimeHandleView};
use crate::numeric::{clamped, saturating_sum};
use crate::publish::{cleanup_step, without_all};
use crate::run::{PendingRunHandleView, StreamItemView, StreamReceiveError};
use crate::schedule::ScheduleView;
use crate::streams::StreamingView;
use crate::text::{decimal_text, is_blank, occurs_in, unicode_white_space};
use crate::world::WorldView;

verus! {

/// The number that a text of decimal digits stands for.
pub open spec fn number_of(digits: Seq<char>) -> int
    decreases digits.len(),
{
    if digits.len() == 0 {
        0
    } else {
        number_of(digits.drop_last()) * 10 + (digits.last() as int - '0' as int)
    }
}

/// The decimal text of a number consists of digits, does not start with a zero unless it is one
/// digit, and stands for the number.
pub proof fn law_decimals_stand_for_their_number(n: nat)
    ensures
        number_of(decimal_text(n)) == n,
        decimal_text(n).len() > 0,
        forall|i: int|
            0 <= i < decimal_text(n).len() ==> '0' as int <= #[trigger] decimal_text(n)[i] as int
                <= '9' as int,
        n > 0 ==> decimal_text(n)[0] != '0',
    decreases n,
{
    let text = decimal_text(n);
    if n < 10 {
        assert(text.drop_last() =~= Seq::empty());
        assert(number_of(text.drop_last()) == 0);
    } else {
        law_decimals_stand_for_their_number(n / 10);
        assert(text.drop_last() =~= decimal_text(n / 10));
        assert(text[0] == decimal_text(n / 10)[0]);
        assert forall|i: int| 0 <= i < text.len() implies '0' as int <= #[trigger] text[i] as int
            <= '9' as int by {
            if i < text.len() - 1 {
                assert(text[i] == decimal_text(n / 10)[i]);
            }
        }
    }
}

/// A text is blank exactly where it holds nothing but white space; one without characters is.
pub proof fn law_blank_texts_hold_white_space_only(text: Seq<char>, i: int)
    ensures
        text.len() == 0 ==> is_blank(text),
        0 <= i < text.len() && !unicode_white_space(text[i]) ==> !is_blank(text),
        (forall|k: int| 0 <= k < text.len() ==> unicode_white_space(#[trigger] text[k]))
            ==> is_blank(text),
{
}

/// A part of a text occurs in it, wherever it stands, and nothing longer than the text does.
pub proof fn law_parts_of_a_text_occur_in_it(before: Seq<char>, part: Seq<char>, after: Seq<char>)
    ensures
        occurs_in(part, before + part + after),
        before.len() > part.len() ==> !occurs_in(before, part),
{
    let text = before + part + after;
    let i = before.len() as int;
    assert(text.subrange(i, i + part.len()) =~= part);
}

/// Lengths and sums are exact where they fit, and the largest number otherwise.
pub proof fn law_counts_stop_at_the_largest(n: nat, a: u64, b: u64)
    ensures
        n <= u32::MAX ==> clamped(n) == n,
        n > u32::MAX ==> clamped(n) == u32::MAX,
        a + b <= u64::MAX ==> saturating_sum(a, b) == a + b,
        a + b > u64::MAX ==> saturating_sum(a, b) == u64::MAX,
{
}

/// Reading what a run has come to marks it as observed where it is over, and changes nothing else.
pub proof fn law_read_outcomes_are_observed(
    s: ScheduleView,
    pending: PendingRunHandleView,
    run: Entity,
)
    requires
        pending.runtime_id == s.handle.runtime_id,
        s.world.resources.index.contains_key(pending.stable_id),
        s.world.resources.index[pending.stable_id] == run,
        s.world.runs.states.contains_key(run),
        s.world.runs.records.contains_key(run),
    ensures
        ({
            let t = after_reading(s, pending);
            let state = s.world.runs.states[run];
            let over = state is Completed || state is Failed || state is Cancelled;
            &&& over ==> t.world.runs.records[run].observed
            &&& !over ==> t == s
            &&& t.world.runs.states == s.world.runs.states
            &&& t.world.runs.records[run].transcript == s.world.runs.records[run].transcript
            &&& t.world.runs.records[run].usage == s.world.runs.records[run].usage
            &&& t.handle == s.handle
            &&& t.effects == s.effects
        }),
{
}

/// A reader takes the oldest item of a stream. The outcome of the run, or the end of the stream,
/// acknowledges the run, once; a piece of text does not.
pub proof fn law_outcomes_are_acknowledged_once(handle: RuntimeHandleView, stream: RunStreamView)
    requires
        stream.stream < handle.streams.len(),
        handle.commands.receiving,
    ensures
        ({
            let queue = handle.streams[stream.stream as int];
            let (next, read) = after_item(handle, stream);
            let over = queue.items.len() > 0 && queue.items[0] is Finished || queue.items.len() == 0
                && !queue.sending;
            &&& queue.items.len() > 0 ==> stream_next(handle.streams, stream.stream) == Ok::<
                Option<StreamItemView>,
                StreamReceiveError,
            >(Some(queue.items[0]))
            &&& queue.items.len() > 0 ==> next.streams[stream.stream as int].items
                == queue.items.skip(1)
            &&& over && !stream.acknowledged ==> {
                &&& next.observations == handle.observations.push(stream.run_id)
                &&& read.acknowledged
            }
            &&& !over || stream.acknowledged ==> {
                &&& next.observations == handle.observations
                &&& read.acknowledged == stream.acknowledged
            }
            &&& next.commands == handle.commands
        }),
{
    let queue = handle.streams[stream.stream as int];
    if queue.items.len() > 0 {
        assert(queue.items.drop_first() =~= queue.items.skip(1));
    }
}

/// A delta that is expected starts the deadline of its operation anew and moves its number on.
pub proof fn law_deltas_renew_the_deadline(s: StreamingView, delta: EffectDeltaView)
    requires
        s.world.operations.kinds.contains_key(delta.operation),
        s.world.operations.kinds[delta.operation] == OperationKind::Model,
        s.world.operations.states.contains_key(delta.operation),
        s.world.operations.states[delta.operation].phase is InFlight,
        s.world.operations.states[delta.operation].generation == delta.generation,
        s.world.operations.stream_states.contains_key(delta.operation),
        s.world.operations.stream_states[delta.operation].next_sequence == delta.sequence,
        s.world.operations.operation_of.contains_key(delta.operation),
        s.world.operations.deadlines.contains_key(delta.operation),
        s.world.resources.tick + s.world.resources.effect_timeout_ticks <= u64::MAX,
    ensures
        ({
            let t = apply_delta(s, delta);
            &&& t.world.operations.deadlines[delta.operation].expires_at
                == s.world.resources.tick + s.world.resources.effect_timeout_ticks
            &&& delta.sequence < u64::MAX
                ==> t.world.operations.stream_states[delta.operation].next_sequence
                == delta.sequence + 1
            &&& t.world.operations.states == s.world.operations.states
        }),
{
    let run = s.world.operations.operation_of[delta.operation];
    let item = StreamItemView::Delta { sequence: delta.sequence, text: delta.text };
    let counted = StreamingView {
        world: crate::apply::with_delta_counted(s.world, delta.operation),
        ..s
    };
    lemma_fold_invariant(
        sources_of(s.world.runs.subscription_of, run),
        counted,
        |s: StreamingView, e: Entity| crate::apply::deliver_delta(s, e, item),
        |t: StreamingView| t.world.operations == counted.world.operations,
    );
}

/// Whether nothing is left of an entity.
spec fn is_gone(w: WorldView, e: Entity) -> bool {
    &&& !w.operations.states.contains_key(e)
    &&& !w.operations.operation_of.contains_key(e)
    &&& !w.runs.turns.contains_key(e)
    &&& !w.runs.subscriptions.contains_key(e)
    &&& !w.operations.batches.contains_key(e)
}

proof fn lemma_gone(w: WorldView, ids: Seq<Entity>, e: Entity)
    ensures
        ids.contains(e) || is_gone(w, e) ==> is_gone(without_all(w, ids), e),
    decreases ids.len(),
{
    reveal_with_fuel(Seq::fold_left, 2);
    if ids.len() > 0 {
        let front = ids.drop_last();
        lemma_gone(w, front, e);
        if ids.contains(e) && e != ids.last() {
            let k = choose|k: int| 0 <= k < ids.len() && ids[k] == e;
            assert(front[k] == e);
        }
    }
}

/// With a run that is removed its operations, its turns and its batches go.
pub proof fn law_removed_runs_take_their_work_along(s: StreamingView, run: Entity, e: Entity)
    requires
        crate::laws_commands::may_be_removed(s.world, run),
        s.world.runs.turn_of.dom().finite(),
        s.world.operations.batch_of.dom().finite(),
        s.world.operations.operation_of.contains_key(e) && s.world.operations.operation_of[e]
            == run || s.world.runs.turn_of.contains_key(e) && s.world.runs.turn_of[e] == run
            || s.world.operations.batch_of.contains_key(e) && s.world.operations.batch_of[e] == run,
    ensures
        ({
            let t = cleanup_step(s, run).world;
            &&& !t.operations.states.contains_key(e)
            &&& !t.runs.turns.contains_key(e)
            &&& !t.operations.batches.contains_key(e)
        }),
{
    let w = s.world;
    crate::laws_commands::law_acknowledged_runs_are_removed(s, run);
    let operations = sources_of(w.operations.operation_of, run);
    let turns = sources_of(w.runs.turn_of, run);
    let batches = sources_of(w.operations.batch_of, run);
    lemma_sources(w.operations.operation_of, run, e);
    lemma_sources(w.runs.turn_of, run, e);
    lemma_sources(w.operations.batch_of, run, e);
    let first = without_all(w, operations);
    let second = without_all(first, turns);
    let third = without_all(second, batches);
    lemma_gone(w, operations, e);
    lemma_gone(first, turns, e);
    lemma_gone(second, batches, e);
    let subscriptions = sources_of(w.runs.subscription_of, run);
    lemma_fold_invariant(
        subscriptions,
        StreamingView { world: third, ..s },
        |s: StreamingView, e: Entity| crate::publish::without_subscription(s, e),
        |t: StreamingView| is_gone(t.world, e),
    );
    if !crate::publish::cleanup_due(w, run) {
        assert(cleanup_step(s, run) == s);
        assert(s.world.runs.states.contains_key(run));
    }
}

proof fn lemma_occurs_in_sum(part: Seq<char>, a: Seq<char>, b: Seq<char>)
    ensures
        occurs_in(part, a) ==> occurs_in(part, a + b),
        occurs_in(part, b) ==> occurs_in(part, a + b),
{
    if occurs_in(part, a) {
        let i = choose|i: int|
            0 <= i <= a.len() - part.len() && #[trigger] a.subrange(i, i + part.len()) == part;
        assert((a + b).subrange(i, i + part.len()) =~= a.subrange(i, i + part.len()));
    }
    if occurs_in(part, b) {
        let i = choose|i: int|
            0 <= i <= b.len() - part.len() && #[trigger] b.subrange(i, i + part.len()) == part;
        let k = a.len() + i;
        assert((a + b).subrange(k, k + part.len()) =~= b.subrange(i, i + part.len()));
    }
}

/// The edge of a graph from a run to an operation.
pub open spec fn edge_text(run: Seq<char>, operation: Seq<char>) -> Seq<char> {
    "\""@ + escaped(run) + "\" -> \""@ + escaped(operation) + "\";\n"@
}

proof fn lemma_edge(run: Seq<char>, operation: crate::debug::PendingOperationDebugView)
    ensures
        occurs_in(edge_text(run, operation.id), operation_lines(run, operation)),
{
    let lines = operation_lines(run, operation);
    reveal_with_fuel(crate::text::concatenation, 12);
    reveal_strlit("\"];\n  \"");
    reveal_strlit("\"");
    let front = "  \""@ + escaped(operation.id) + "\" [label=\""@ + escaped(operation.kind)
        + "\\n"@ + escaped(operation.phase) + "\"];\n  \""@;
    let tail = escaped(run) + "\" -> \""@ + escaped(operation.id) + "\";\n"@;
    assert(lines =~= front + tail);
    let edge = edge_text(run, operation.id);
    let i = front.len() - 1;
    assert(lines.subrange(i, i + edge.len()) =~= edge);
}

proof fn lemma_operation_edge(
    run: Seq<char>,
    operations: Seq<crate::debug::PendingOperationDebugView>,
    n: int,
    k: int,
)
    requires
        0 <= k < n <= operations.len(),
    ensures
        occurs_in(edge_text(run, operations[k].id), operations_lines(run, operations, n)),
    decreases n,
{
    let edge = edge_text(run, operations[k].id);
    let before = operations_lines(run, operations, n - 1);
    let last = operation_lines(run, operations[n - 1]);
    if k < n - 1 {
        lemma_operation_edge(run, operations, n - 1, k);
    } else {
        lemma_edge(run, operations[k]);
    }
    lemma_occurs_in_sum(edge, before, last);
}

/// The graph of a run has an edge from the run to each of its operations.
pub proof fn law_graphs_show_every_operation(
    w: WorldView,
    run: Entity,
    explanation: RunExplanationView,
    k: int,
)
    requires
        0 <= k < explanation.operations.len(),
    ensures
        occurs_in(
            edge_text(explanation.run_id, explanation.operations[k].id),
            graph_text(w, run, explanation),
        ),
{
    let id = explanation.run_id;
    let operations = explanation.operations;
    let n = operations.len() as int;
    let children = children_of(w, run);
    let edge = edge_text(id, operations[k].id);
    let head = crate::debug::run_lines(id, explanation.state);
    let middle = operations_lines(id, operations, n);
    let rest = children_lines(id, children, children.len() as int);
    lemma_operation_edge(id, operations, n, k);
    lemma_occurs_in_sum(edge, head, middle);
    lemma_occurs_in_sum(edge, head + middle, rest);
    lemma_occurs_in_sum(edge, head + middle + rest, "}\n"@);
}

/// The text of an error tells its cause, and errors of different kinds start differently.
pub proof fn law_errors_tell_their_cause(cause: Seq<char>, retryable: bool)
    ensures
        cause.is_suffix_of(canonical_error_text(CanonicalErrorView::StaleEntity(cause))),
        cause.is_suffix_of(canonical_error_text(CanonicalErrorView::ExecutorPanicked(cause))),
        cause.is_suffix_of(canonical_error_text(CanonicalErrorView::UnsupportedModelContent(cause))),
        cause.is_suffix_of(canonical_error_text(CanonicalErrorView::InvalidStructuredOutput(cause))),
        cause.is_suffix_of(canonical_error_text(CanonicalErrorView::InvalidDiscovery(cause))),
        cause.is_suffix_of(
            canonical_error_text(CanonicalErrorView::Provider { message: cause, retryable }),
        ),
        cause.is_suffix_of(
            canonical_error_text(CanonicalErrorView::Tool { message: cause, retryable }),
        ),
        cause.is_suffix_of(
            canonical_error_text(CanonicalErrorView::Store { message: cause, retryable }),
        ),
        cause.is_suffix_of(
            canonical_error_text(CanonicalErrorView::Discovery { message: cause, retryable }),
        ),
        occurs_in(cause, canonical_error_text(CanonicalErrorView::UnknownTool(cause))),
        occurs_in(cause, canonical_error_text(CanonicalErrorView::DuplicateToolCall(cause))),
        occurs_in(
            cause,
            canonical_error_text(CanonicalErrorView::PolicyDenied { policy: cause }),
        ),
{
    assert forall|front: Seq<char>| #[trigger] (front + cause).subrange(
        (front + cause).len() - cause.len(),
        (front + cause).len() as int,
    ) == cause by {
        assert((front + cause).subrange(
            (front + cause).len() - cause.len(),
            (front + cause).len() as int,
        ) =~= cause);
    }
    law_parts_of_a_text_occur_in_it("unknown or unavailable tool `"@, cause, "`"@);
    law_parts_of_a_text_occur_in_it("duplicate tool call id `"@, cause, "`"@);
    law_parts_of_a_text_occur_in_it("policy `"@, cause, "` denied the operation"@);
}

} // verus!
