//! How work goes out to executors and how their answers come in.

use vstd::prelude::*;

use crate::apply::{
    apply_completion, apply_delta, cancel_all, cancel_step, deliver_delta, expire_all, expire_step,
    CancelView,
};
use crate::capability::PolicyProgress;
use crate::column::{entities_of, lemma_entities, sources_of, Entity};
use crate::dispatch::{
    discovery_request, discovery_requests, dispatch_request, dispatch_requests, model_request,
    model_requests, store_request, store_requests, tool_request, tool_requests, DispatchView,
};
use crate::effect::{
    CanonicalErrorView, EffectCancellation, EffectCompletionView, EffectDeltaView,
    EffectInputView, EffectOutputView, EffectRequestView, OperationKind, OperationOutcomeView,
    OperationPhaseView,
};
use crate::fold::{lemma_fold_reaches, lemma_picked_members, picked};
use crate::queue::{QueueView, SendError};
use crate::run::{StreamItemView, SubscriptionState};
use crate::sorting::{key_le, lemma_sort_rows, row_values, sort_rows, KeyPartView, KeyView};
use crate::streams::StreamingView;
use crate::text::{lemma_text_le_reflexive, text_le};
use crate::world::WorldView;

verus! {

/// A queue takes an item exactly where somebody may still receive and fewer items wait than it may
/// hold; without a receiver it is disconnected, and otherwise full. Items leave it in the order in
/// which they came.
pub proof fn law_queues_take_what_fits<V>(q: QueueView<V>, item: V)
    ensures
        q.receiving && q.items.len() < q.capacity ==> q.refusal() is None && q.offered(item).items
            == q.items.push(item),
        !q.receiving ==> q.refusal() == Some(SendError::Disconnected) && q.offered(item) == q,
        q.receiving && q.items.len() >= q.capacity ==> q.refusal() == Some(SendError::Full)
            && q.offered(item) == q,
        q.offered(item).capacity == q.capacity,
        q.items.len() > 0 ==> q.taken().items == q.items.skip(1),
        q.items.len() > 0 ==> seq![q.items[0]] + q.taken().items == q.items,
        q.drained().items.len() == 0,
        q.drained().sending == q.sending,
{
    if q.items.len() > 0 {
        assert(q.taken().items =~= q.items.skip(1));
        assert(seq![q.items[0]] + q.taken().items =~= q.items);
    }
}

/// Each row that was sorted is one that was picked for some item.
proof fn lemma_row_source<V>(
    items: Seq<Entity>,
    pick: spec_fn(Entity) -> Option<(KeyView, V)>,
    k: int,
) -> (i: int)
    requires
        0 <= k < sort_rows(picked(items, pick)).len(),
    ensures
        0 <= i < items.len(),
        pick(items[i]) == Some(sort_rows(picked(items, pick))[k]),
{
    let rows = picked(items, pick);
    let sorted = sort_rows(rows);
    lemma_sort_rows(rows);
    rows.to_multiset_ensures();
    sorted.to_multiset_ensures();
    assert(sorted.contains(sorted[k]));
    assert(sorted.to_multiset().count(sorted[k]) > 0);
    assert(rows.contains(sorted[k]));
    lemma_picked_members(items, pick, sorted[k]);
    choose|i: int| 0 <= i < items.len() && #[trigger] pick(items[i]) == Some(sorted[k])
}

/// Each row that was picked for an item is among the sorted ones.
proof fn lemma_row_place<V>(
    items: Seq<Entity>,
    pick: spec_fn(Entity) -> Option<(KeyView, V)>,
    i: int,
) -> (k: int)
    requires
        0 <= i < items.len(),
        pick(items[i]) is Some,
    ensures
        0 <= k < sort_rows(picked(items, pick)).len(),
        pick(items[i]) == Some(sort_rows(picked(items, pick))[k]),
{
    let rows = picked(items, pick);
    let sorted = sort_rows(rows);
    let row = pick(items[i])->0;
    lemma_sort_rows(rows);
    rows.to_multiset_ensures();
    sorted.to_multiset_ensures();
    assert(pick(items[i]) == Some(row));
    lemma_picked_members(items, pick, row);
    assert(rows.contains(row));
    assert(rows.to_multiset().count(row) > 0);
    assert(sorted.contains(row));
    choose|k: int| 0 <= k < sorted.len() && sorted[k] == row
}

/// Whether a model operation may go out: it is prepared, its policies were applied, and its run
/// waits for a model.
pub open spec fn model_may_go(w: WorldView, e: Entity) -> bool {
    let run = w.operations.operation_of[e];
    &&& w.operations.model_inputs.contains_key(e)
    &&& !w.operations.tool_inputs.contains_key(e)
    &&& w.operations.states.contains_key(e)
    &&& w.operations.states[e].phase is Prepared
    &&& w.operations.policy_progress.contains_key(e)
    &&& w.operations.policy_progress[e] == PolicyProgress::Accepted
    &&& w.operations.operation_of.contains_key(e)
    &&& w.stable_ids.contains_key(run)
    &&& w.runs.states.contains_key(run)
    &&& w.runs.states[run] is WaitingModel
}

/// Whether a tool operation may go out: it is prepared, and the run of its batch waits for tools.
pub open spec fn tool_may_go(w: WorldView, e: Entity) -> bool {
    let batch = w.operations.operation_of_batch[e];
    let run = w.operations.batch_of[batch];
    &&& w.operations.tool_inputs.contains_key(e)
    &&& !w.operations.model_inputs.contains_key(e)
    &&& w.operations.states.contains_key(e)
    &&& w.operations.states[e].phase is Prepared
    &&& w.operations.operation_of_batch.contains_key(e)
    &&& w.operations.batch_of.contains_key(batch)
    &&& w.runs.states.contains_key(run)
    &&& w.runs.states[run] is WaitingTools
}

/// Whether a store operation may go out: it is prepared, and its run waits for a store.
pub open spec fn store_may_go(w: WorldView, e: Entity) -> bool {
    let run = w.operations.operation_of[e];
    &&& w.operations.store_inputs.contains_key(e)
    &&& w.operations.states.contains_key(e)
    &&& w.operations.states[e].phase is Prepared
    &&& w.operations.operation_of.contains_key(e)
    &&& w.stable_ids.contains_key(run)
    &&& w.runs.states.contains_key(run)
    &&& w.runs.states[run] is WaitingStore
}

/// Whether a discovery operation may go out: it is prepared.
pub open spec fn discovery_may_go(w: WorldView, e: Entity) -> bool {
    &&& w.operations.discovery_inputs.contains_key(e)
    &&& w.operations.states.contains_key(e)
    &&& w.operations.states[e].phase is Prepared
}

/// Whether a request is that of an operation, in its generation.
pub open spec fn is_request_of(w: WorldView, request: EffectRequestView, e: Entity) -> bool {
    request.operation == e && request.generation == w.operations.states[e].generation
}

/// Whether of two operations of runs the first goes out first: by the id of its run, and of one run
/// the older one.
pub open spec fn goes_before(w: WorldView, a: Entity, b: Entity) -> bool {
    let x = w.stable_ids[w.operations.operation_of[a]];
    let y = w.stable_ids[w.operations.operation_of[b]];
    if x == y {
        a.0 <= b.0
    } else {
        text_le(x, y)
    }
}

/// The model operations that may go out are offered, each with its own input, in the order of the
/// ids of their runs.
pub proof fn law_model_work_is_offered(w: WorldView)
    requires
        w.operations.model_inputs.dom().finite(),
    ensures
        ({
            let requests = model_requests(w);
            &&& forall|k: int|
                0 <= k < requests.len() ==> {
                    let e = (#[trigger] requests[k]).operation;
                    &&& model_may_go(w, e)
                    &&& is_request_of(w, requests[k], e)
                    &&& requests[k].input == EffectInputView::Model(w.operations.model_inputs[e])
                }
            &&& forall|e: Entity| #[trigger]
                model_may_go(w, e) ==> exists|k: int|
                    0 <= k < requests.len() && (#[trigger] requests[k]).operation == e
            &&& forall|i: int, j: int|
                0 <= i < j < requests.len() ==> goes_before(
                    w,
                    (#[trigger] requests[i]).operation,
                    (#[trigger] requests[j]).operation,
                )
        }),
{
    let ids = entities_of(w.operations.model_inputs.dom());
    let pick = |e: Entity| model_request(w, e);
    let rows = sort_rows(picked(ids, pick));
    let requests = model_requests(w);
    assert(requests == row_values(rows));
    lemma_entities(w.operations.model_inputs.dom());
    lemma_sort_rows(picked(ids, pick));
    assert forall|k: int| 0 <= k < requests.len() implies model_request(
        w,
        (#[trigger] requests[k]).operation,
    ) == Some(rows[k]) by {
        let i = lemma_row_source(ids, pick, k);
        assert(pick(ids[i]) == model_request(w, ids[i]));
    }
    assert forall|e: Entity| #[trigger] model_may_go(w, e) implies exists|k: int|
        0 <= k < requests.len() && (#[trigger] requests[k]).operation == e by {
        assert(ids.to_set().contains(e));
        let i = choose|i: int| 0 <= i < ids.len() && ids[i] == e;
        assert(pick(ids[i]) == model_request(w, e));
        let k = lemma_row_place(ids, pick, i);
        assert(requests[k].operation == e);
    }
    assert forall|i: int, j: int| 0 <= i < j < requests.len() implies goes_before(
        w,
        (#[trigger] requests[i]).operation,
        (#[trigger] requests[j]).operation,
    ) by {
        let a = requests[i].operation;
        let b = requests[j].operation;
        assert(model_request(w, a) == Some(rows[i]));
        assert(model_request(w, b) == Some(rows[j]));
        assert(key_le(rows[i].0, rows[j].0));
        lemma_run_keys(w, a, b, rows[i].0, rows[j].0);
    }
}

proof fn lemma_run_keys(w: WorldView, a: Entity, b: Entity, x: KeyView, y: KeyView)
    requires
        key_le(x, y),
        x == seq![
            KeyPartView::Text(w.stable_ids[w.operations.operation_of[a]]),
            KeyPartView::Number(a.0),
        ],
        y == seq![
            KeyPartView::Text(w.stable_ids[w.operations.operation_of[b]]),
            KeyPartView::Number(b.0),
        ],
    ensures
        goes_before(w, a, b),
{
    reveal_with_fuel(key_le, 4);
    assert(x.drop_first()[0] == x[1] && y.drop_first()[0] == y[1]);
    assert(x[0] == KeyPartView::Text(w.stable_ids[w.operations.operation_of[a]]));
    assert(y[0] == KeyPartView::Text(w.stable_ids[w.operations.operation_of[b]]));
}

/// The store operations that may go out are offered, each with its own input, in the order of the
/// ids of their runs.
pub proof fn law_store_work_is_offered(w: WorldView)
    requires
        w.operations.store_inputs.dom().finite(),
    ensures
        ({
            let requests = store_requests(w);
            &&& forall|k: int|
                0 <= k < requests.len() ==> {
                    let e = (#[trigger] requests[k]).operation;
                    &&& store_may_go(w, e)
                    &&& is_request_of(w, requests[k], e)
                    &&& requests[k].input == EffectInputView::Store(w.operations.store_inputs[e])
                }
            &&& forall|e: Entity| #[trigger]
                store_may_go(w, e) ==> exists|k: int|
                    0 <= k < requests.len() && (#[trigger] requests[k]).operation == e
            &&& forall|i: int, j: int|
                0 <= i < j < requests.len() ==> goes_before(
                    w,
                    (#[trigger] requests[i]).operation,
                    (#[trigger] requests[j]).operation,
                )
        }),
{
    let ids = entities_of(w.operations.store_inputs.dom());
    let pick = |e: Entity| store_request(w, e);
    let rows = sort_rows(picked(ids, pick));
    let requests = store_requests(w);
    assert(requests == row_values(rows));
    lemma_entities(w.operations.store_inputs.dom());
    lemma_sort_rows(picked(ids, pick));
    assert forall|k: int| 0 <= k < requests.len() implies store_request(
        w,
        (#[trigger] requests[k]).operation,
    ) == Some(rows[k]) by {
        let i = lemma_row_source(ids, pick, k);
        assert(pick(ids[i]) == store_request(w, ids[i]));
    }
    assert forall|e: Entity| #[trigger] store_may_go(w, e) implies exists|k: int|
        0 <= k < requests.len() && (#[trigger] requests[k]).operation == e by {
        assert(ids.to_set().contains(e));
        let i = choose|i: int| 0 <= i < ids.len() && ids[i] == e;
        assert(pick(ids[i]) == store_request(w, e));
        let k = lemma_row_place(ids, pick, i);
        assert(requests[k].operation == e);
    }
    assert forall|i: int, j: int| 0 <= i < j < requests.len() implies goes_before(
        w,
        (#[trigger] requests[i]).operation,
        (#[trigger] requests[j]).operation,
    ) by {
        let a = requests[i].operation;
        let b = requests[j].operation;
        assert(store_request(w, a) == Some(rows[i]));
        assert(store_request(w, b) == Some(rows[j]));
        assert(key_le(rows[i].0, rows[j].0));
        lemma_run_keys(w, a, b, rows[i].0, rows[j].0);
    }
}

/// The tool operations that may go out are offered, each with its own input: batch by batch, and
/// within a batch in the order of the calls of the model.
pub proof fn law_tool_work_is_offered(w: WorldView)
    requires
        w.operations.tool_inputs.dom().finite(),
    ensures
        ({
            let requests = tool_requests(w);
            &&& forall|k: int|
                0 <= k < requests.len() ==> {
                    let e = (#[trigger] requests[k]).operation;
                    &&& tool_may_go(w, e)
                    &&& is_request_of(w, requests[k], e)
                    &&& requests[k].input == EffectInputView::Tool(w.operations.tool_inputs[e])
                }
            &&& forall|e: Entity| #[trigger]
                tool_may_go(w, e) ==> exists|k: int|
                    0 <= k < requests.len() && (#[trigger] requests[k]).operation == e
            &&& forall|i: int, j: int|
                0 <= i < j < requests.len() ==> {
                    let a = (#[trigger] requests[i]).operation;
                    let b = (#[trigger] requests[j]).operation;
                    &&& w.operations.operation_of_batch[a].0 <= w.operations.operation_of_batch[b].0
                    &&& w.operations.operation_of_batch[a] == w.operations.operation_of_batch[b]
                        ==> w.operations.tool_inputs[a].index <= w.operations.tool_inputs[b].index
                }
        }),
{
    let ids = entities_of(w.operations.tool_inputs.dom());
    let pick = |e: Entity| tool_request(w, e);
    let rows = sort_rows(picked(ids, pick));
    let requests = tool_requests(w);
    assert(requests == row_values(rows));
    lemma_entities(w.operations.tool_inputs.dom());
    lemma_sort_rows(picked(ids, pick));
    assert forall|k: int| 0 <= k < requests.len() implies tool_request(
        w,
        (#[trigger] requests[k]).operation,
    ) == Some(rows[k]) by {
        let i = lemma_row_source(ids, pick, k);
        assert(pick(ids[i]) == tool_request(w, ids[i]));
    }
    assert forall|e: Entity| #[trigger] tool_may_go(w, e) implies exists|k: int|
        0 <= k < requests.len() && (#[trigger] requests[k]).operation == e by {
        assert(ids.to_set().contains(e));
        let i = choose|i: int| 0 <= i < ids.len() && ids[i] == e;
        assert(pick(ids[i]) == tool_request(w, e));
        let k = lemma_row_place(ids, pick, i);
        assert(requests[k].operation == e);
    }
    assert forall|i: int, j: int| 0 <= i < j < requests.len() implies {
        let a = (#[trigger] requests[i]).operation;
        let b = (#[trigger] requests[j]).operation;
        &&& w.operations.operation_of_batch[a].0 <= w.operations.operation_of_batch[b].0
        &&& w.operations.operation_of_batch[a] == w.operations.operation_of_batch[b]
            ==> w.operations.tool_inputs[a].index <= w.operations.tool_inputs[b].index
    } by {
        let a = requests[i].operation;
        let b = requests[j].operation;
        assert(tool_request(w, a) == Some(rows[i]));
        assert(tool_request(w, b) == Some(rows[j]));
        let x = rows[i].0;
        let y = rows[j].0;
        assert(key_le(x, y));
        reveal_with_fuel(key_le, 4);
        assert(x.drop_first()[0] == x[1] && y.drop_first()[0] == y[1]);
        assert(x[0] == KeyPartView::Number(w.operations.operation_of_batch[a].0));
        assert(y[0] == KeyPartView::Number(w.operations.operation_of_batch[b].0));
    }
}

/// The discovery operations that may go out are offered, each with its own input.
pub proof fn law_discovery_work_is_offered(w: WorldView)
    requires
        w.operations.discovery_inputs.dom().finite(),
    ensures
        ({
            let requests = discovery_requests(w);
            &&& forall|k: int|
                0 <= k < requests.len() ==> {
                    let e = (#[trigger] requests[k]).operation;
                    &&& discovery_may_go(w, e)
                    &&& is_request_of(w, requests[k], e)
                    &&& requests[k].input == EffectInputView::Discovery(
                        w.operations.discovery_inputs[e],
                    )
                }
            &&& forall|e: Entity| #[trigger]
                discovery_may_go(w, e) ==> exists|k: int|
                    0 <= k < requests.len() && (#[trigger] requests[k]).operation == e
            &&& forall|i: int, j: int|
                0 <= i < j < requests.len() ==> text_le(
                    w.operations.discovery_inputs[(
                    #[trigger] requests[i]).operation].source_id,
                    w.operations.discovery_inputs[(
                    #[trigger] requests[j]).operation].source_id,
                )
        }),
{
    let ids = entities_of(w.operations.discovery_inputs.dom());
    let pick = |e: Entity| discovery_request(w, e);
    let rows = sort_rows(picked(ids, pick));
    let requests = discovery_requests(w);
    assert(requests == row_values(rows));
    lemma_entities(w.operations.discovery_inputs.dom());
    lemma_sort_rows(picked(ids, pick));
    assert forall|k: int| 0 <= k < requests.len() implies discovery_request(
        w,
        (#[trigger] requests[k]).operation,
    ) == Some(rows[k]) by {
        let i = lemma_row_source(ids, pick, k);
        assert(pick(ids[i]) == discovery_request(w, ids[i]));
    }
    assert forall|e: Entity| #[trigger] discovery_may_go(w, e) implies exists|k: int|
        0 <= k < requests.len() && (#[trigger] requests[k]).operation == e by {
        assert(ids.to_set().contains(e));
        let i = choose|i: int| 0 <= i < ids.len() && ids[i] == e;
        assert(pick(ids[i]) == discovery_request(w, e));
        let k = lemma_row_place(ids, pick, i);
        assert(requests[k].operation == e);
    }
    assert forall|i: int, j: int| 0 <= i < j < requests.len() implies text_le(
        w.operations.discovery_inputs[(#[trigger] requests[i]).operation].source_id,
        w.operations.discovery_inputs[(#[trigger] requests[j]).operation].source_id,
    ) by {
        let a = requests[i].operation;
        let b = requests[j].operation;
        assert(discovery_request(w, a) == Some(rows[i]));
        assert(discovery_request(w, b) == Some(rows[j]));
        let x = rows[i].0;
        let y = rows[j].0;
        assert(key_le(x, y));
        reveal_with_fuel(key_le, 3);
        assert(x[0] == KeyPartView::Text(w.operations.discovery_inputs[a].source_id));
        assert(y[0] == KeyPartView::Text(w.operations.discovery_inputs[b].source_id));
        lemma_text_le_reflexive(w.operations.discovery_inputs[a].source_id);
    }
}

/// A request that the queue takes is in flight, with a deadline as many ticks ahead as effects may
/// take, and stands behind what waits in the queue. Nothing else is touched.
pub proof fn law_taken_requests_are_in_flight(d: DispatchView, request: EffectRequestView)
    requires
        d.outbox.receiving,
        d.outbox.items.len() < d.outbox.capacity,
        d.world.operations.states.contains_key(request.operation),
        d.world.operations.states[request.operation].generation == request.generation,
        d.world.operations.states[request.operation].phase is Prepared,
    ensures
        ({
            let t = dispatch_request(d, request);
            let e = request.operation;
            let due = d.world.resources.tick + d.world.resources.effect_timeout_ticks;
            &&& t.outbox.items == d.outbox.items.push(request)
            &&& t.progress
            &&& t.world.operations.states[e].phase is InFlight
            &&& t.world.operations.states[e].generation == request.generation
            &&& t.world.operations.deadlines.contains_key(e)
            &&& t.world.operations.deadlines[e].expires_at == if due <= u64::MAX {
                due
            } else {
                u64::MAX as int
            }
            &&& t.world.runs == d.world.runs
            &&& t.world.domain == d.world.domain
            &&& forall|other: Entity|
                other != e && d.world.operations.states.contains_key(other)
                    ==> #[trigger] t.world.operations.states[other]
                    == d.world.operations.states[other]
        }),
{
}

/// Where the queue has room for all, all requests enter it in their order, and the operation of
/// each that is prepared is in flight.
pub proof fn law_all_requests_go_out_where_there_is_room(
    w: WorldView,
    outbox: QueueView<EffectRequestView>,
    requests: Seq<EffectRequestView>,
    k: int,
)
    requires
        outbox.receiving,
        outbox.items.len() + requests.len() <= outbox.capacity,
        0 <= k < requests.len(),
        w.operations.states.contains_key(requests[k].operation),
        w.operations.states[requests[k].operation].generation == requests[k].generation,
        w.operations.states[requests[k].operation].phase is Prepared,
    ensures
        ({
            let t = dispatch_requests(w, outbox, requests);
            &&& t.outbox.items == outbox.items + requests
            &&& t.world.operations.states[requests[k].operation].phase is InFlight
            &&& t.world.operations.deadlines.contains_key(requests[k].operation)
        }),
{
    lemma_requests_go_out(w, outbox, requests, requests[k]);
    assert(requests.contains(requests[k]));
}

proof fn lemma_requests_go_out(
    w: WorldView,
    outbox: QueueView<EffectRequestView>,
    requests: Seq<EffectRequestView>,
    request: EffectRequestView,
)
    requires
        outbox.receiving,
        outbox.items.len() + requests.len() <= outbox.capacity,
        w.operations.states.contains_key(request.operation),
        w.operations.states[request.operation].generation == request.generation,
        w.operations.states[request.operation].phase is Prepared,
    ensures
        ({
            let start = DispatchView { world: w, outbox, progress: false };
            let t = requests.fold_left(
                start,
                |d: DispatchView, r: EffectRequestView| dispatch_request(d, r),
            );
            let e = request.operation;
            &&& t.outbox.items == outbox.items + requests
            &&& t.outbox.capacity == outbox.capacity
            &&& t.outbox.receiving
            &&& t.world.operations.states.contains_key(e)
            &&& t.world.operations.states[e].generation == request.generation
            &&& t.world.operations.states[e].phase is Prepared
                || t.world.operations.states[e].phase is InFlight
                && t.world.operations.deadlines.contains_key(e)
            &&& requests.contains(request) ==> t.world.operations.states[e].phase is InFlight
        }),
    decreases requests.len(),
{
    reveal_with_fuel(Seq::fold_left, 2);
    if requests.len() > 0 {
        let front = requests.drop_last();
        let last = requests.last();
        lemma_requests_go_out(w, outbox, front, request);
        assert((outbox.items + front).push(last) =~= outbox.items + requests);
        if requests.contains(request) && last != request {
            let k = choose|k: int| 0 <= k < requests.len() && requests[k] == request;
            assert(front[k] == request);
        }
    } else {
        assert(outbox.items + requests =~= outbox.items);
    }
}

/// Whether an output is of the kind of an operation.
pub open spec fn is_of_kind(kind: OperationKind, output: EffectOutputView) -> bool {
    match output {
        EffectOutputView::Model(_) => kind == OperationKind::Model,
        EffectOutputView::Tool(_) => kind == OperationKind::Tool,
        EffectOutputView::Discovery(_) => kind == OperationKind::Discovery,
        EffectOutputView::Store(_) => kind == OperationKind::Store,
    }
}

/// A completion of an operation that is in flight in its generation settles it: with its output,
/// with its error, or as a mismatch where the output is of another kind.
pub proof fn law_completions_settle_their_operation(w: WorldView, completion: EffectCompletionView)
    requires
        w.operations.kinds.contains_key(completion.operation),
        w.operations.states.contains_key(completion.operation),
        w.operations.states[completion.operation].phase is InFlight,
    ensures
        ({
            let t = apply_completion(w, completion);
            let e = completion.operation;
            let before = w.operations.states[e];
            let after = t.operations.states[e];
            &&& after.generation == before.generation
            &&& before.generation != completion.generation ==> after == before
            &&& before.generation == completion.generation ==> match completion.result {
                Ok(output) => if is_of_kind(w.operations.kinds[e], output) {
                    after.phase == OperationPhaseView::Settled(OperationOutcomeView::Success(output))
                } else {
                    after.phase == OperationPhaseView::Settled(
                        OperationOutcomeView::Failure(CanonicalErrorView::EffectKindMismatch),
                    )
                },
                Err(error) => after.phase == OperationPhaseView::Settled(
                    OperationOutcomeView::Failure(error),
                ),
            }
        }),
{
}

/// Whether a subscription of a run is active, with a stream of its own that takes an item.
pub open spec fn listens(s: StreamingView, subscription: Entity, run: Entity, stream: u64) -> bool {
    &&& s.world.runs.subscription_of.contains_key(subscription)
    &&& s.world.runs.subscription_of[subscription] == run
    &&& s.world.runs.sinks.contains_key(subscription)
    &&& s.world.runs.sinks[subscription] == stream
    &&& s.world.runs.subscriptions.contains_key(subscription)
    &&& s.world.runs.subscriptions[subscription] == SubscriptionState::Active
    &&& stream < s.streams.len()
    &&& forall|other: Entity|
        other != subscription && s.world.runs.sinks.contains_key(other)
            ==> #[trigger] s.world.runs.sinks[other] != stream
}

/// The next delta of a model operation in flight reaches each subscription of its run: it stands
/// behind what waits in the stream, with its text and its number. A subscription whose stream has
/// no room is dropped, and its stream closed.
pub proof fn law_deltas_reach_every_subscription(
    s: StreamingView,
    delta: EffectDeltaView,
    subscription: Entity,
    run: Entity,
    stream: u64,
)
    requires
        s.world.runs.subscription_of.dom().finite(),
        s.world.operations.kinds.contains_key(delta.operation),
        s.world.operations.kinds[delta.operation] == OperationKind::Model,
        s.world.operations.states.contains_key(delta.operation),
        s.world.operations.states[delta.operation].phase is InFlight,
        s.world.operations.states[delta.operation].generation == delta.generation,
        s.world.operations.stream_states.contains_key(delta.operation),
        s.world.operations.stream_states[delta.operation].next_sequence == delta.sequence,
        s.world.operations.operation_of.contains_key(delta.operation),
        s.world.operations.operation_of[delta.operation] == run,
        listens(s, subscription, run, stream),
    ensures
        ({
            let t = apply_delta(s, delta);
            let before = s.streams[stream as int];
            let after = t.streams[stream as int];
            if before.receiving && before.items.len() < before.capacity {
                &&& after.items == before.items.push(
                    StreamItemView::Delta { sequence: delta.sequence, text: delta.text },
                )
                &&& t.world.runs.subscriptions[subscription] == SubscriptionState::Active
            } else {
                &&& after.items == before.items
                &&& !after.sending
                &&& t.world.runs.subscriptions[subscription]
                    == SubscriptionState::DroppedSlowConsumer
            }
        }),
{
    let item = StreamItemView::Delta { sequence: delta.sequence, text: delta.text };
    let counted = StreamingView {
        world: crate::apply::with_delta_counted(s.world, delta.operation),
        ..s
    };
    let ids = sources_of(s.world.runs.subscription_of, run);
    crate::column::lemma_sources(s.world.runs.subscription_of, run, subscription);
    crate::column::lemma_sources_ascending(s.world.runs.subscription_of, run);
    lemma_delivery(counted, ids, item, subscription, run, stream);
}

proof fn lemma_delivery(
    s: StreamingView,
    ids: Seq<Entity>,
    item: StreamItemView,
    subscription: Entity,
    run: Entity,
    stream: u64,
)
    requires
        listens(s, subscription, run, stream),
        crate::column::strictly_ascending(ids),
    ensures
        ({
            let t = ids.fold_left(s, |s: StreamingView, e: Entity| deliver_delta(s, e, item));
            let before = s.streams[stream as int];
            let after = t.streams[stream as int];
            &&& t.streams.len() == s.streams.len()
            &&& t.world.runs.subscription_of == s.world.runs.subscription_of
            &&& forall|other: Entity|
                #![trigger t.world.runs.sinks[other]]
                #![trigger t.world.runs.sinks.contains_key(other)]
                t.world.runs.sinks.contains_key(other) ==> s.world.runs.sinks.contains_key(other)
                    && t.world.runs.sinks[other] == s.world.runs.sinks[other]
            &&& t.world.runs.subscriptions.contains_key(subscription)
            &&& if !ids.contains(subscription) {
                &&& after == before
                &&& t.world.runs.sinks.contains_key(subscription)
                &&& t.world.runs.subscriptions[subscription] == SubscriptionState::Active
            } else if before.receiving && before.items.len() < before.capacity {
                &&& after.items == before.items.push(item)
                &&& t.world.runs.subscriptions[subscription] == SubscriptionState::Active
            } else {
                &&& after.items == before.items
                &&& !after.sending
                &&& t.world.runs.subscriptions[subscription]
                    == SubscriptionState::DroppedSlowConsumer
            }
        }),
    decreases ids.len(),
{
    reveal_with_fuel(Seq::fold_left, 2);
    if ids.len() > 0 {
        let front = ids.drop_last();
        let last = ids.last();
        lemma_delivery(s, front, item, subscription, run, stream);
        assert(ids.contains(subscription) <==> front.contains(subscription) || last
            == subscription) by {
            if ids.contains(subscription) && last != subscription {
                let k = choose|k: int| 0 <= k < ids.len() && ids[k] == subscription;
                assert(front[k] == subscription);
            }
            if front.contains(subscription) {
                let k = choose|k: int| 0 <= k < front.len() && front[k] == subscription;
                assert(ids[k] == subscription);
            }
            assert(ids[ids.len() - 1] == last);
        }
        if front.contains(subscription) {
            let k = choose|k: int| 0 <= k < front.len() && front[k] == subscription;
            assert(ids[k].0 < ids[ids.len() - 1].0);
        }
    }
}

/// An operation in flight times out exactly where the clock has reached its deadline, whatever
/// other operations do.
pub proof fn law_operations_time_out_at_their_deadline(w: WorldView, operation: Entity)
    requires
        w.operations.deadlines.dom().finite(),
        w.operations.deadlines.contains_key(operation),
        w.operations.states.contains_key(operation),
    ensures
        ({
            let before = w.operations.states[operation];
            let after = expire_all(w).operations.states[operation];
            &&& after.generation == before.generation
            &&& before.phase is InFlight && w.resources.tick
                >= w.operations.deadlines[operation].expires_at ==> after.phase
                == OperationPhaseView::Settled(
                OperationOutcomeView::Failure(CanonicalErrorView::Timeout),
            )
            &&& !(before.phase is InFlight) || w.resources.tick
                < w.operations.deadlines[operation].expires_at ==> after == before
        }),
{
    lemma_entities(w.operations.deadlines.dom());
    let ids = entities_of(w.operations.deadlines.dom());
    assert(ids.to_set().contains(operation));
    let one = expire_step(w, operation).operations.states[operation];
    lemma_fold_reaches(
        ids,
        operation,
        w,
        |w: WorldView, e: Entity| expire_step(w, e),
        |v: WorldView|
            {
                &&& v.operations.deadlines == w.operations.deadlines
                &&& v.resources.tick == w.resources.tick
                &&& v.operations.states.contains_key(operation)
                &&& v.operations.states[operation] == w.operations.states[operation]
            },
        |v: WorldView|
            {
                &&& v.operations.deadlines == w.operations.deadlines
                &&& v.resources.tick == w.resources.tick
                &&& v.operations.states.contains_key(operation)
                &&& v.operations.states[operation] == one
            },
    );
}

/// Whether an operation belongs to a cancelled run and is not over.
pub open spec fn must_be_cancelled(w: WorldView, operation: Entity) -> bool {
    let run = w.operations.operation_of[operation];
    &&& w.operations.operation_of.contains_key(operation)
    &&& w.runs.states.contains_key(run)
    &&& w.runs.states[run] is Cancelled
    &&& w.operations.states.contains_key(operation)
    &&& w.operations.states[operation].phase is Prepared
        || w.operations.states[operation].phase is InFlight
}

/// An operation of a cancelled run that is not over is cancelled. The executor of one in flight is
/// told, in its generation; where the queue for that is full the operation waits until it can be.
/// An operation that is over, or whose run is not cancelled, is left alone.
pub proof fn law_operations_of_cancelled_runs_are_cancelled(c: CancelView, operation: Entity)
    ensures
        ({
            let t = cancel_step(c, operation);
            let state = c.world.operations.states[operation];
            let full = c.outbox.receiving && c.outbox.items.len() >= c.outbox.capacity;
            &&& must_be_cancelled(c.world, operation) && state.phase is Prepared ==> {
                &&& t.world.operations.states[operation].phase is Cancelled
                &&& t.outbox == c.outbox
            }
            &&& must_be_cancelled(c.world, operation) && state.phase is InFlight && full ==> t == c
            &&& must_be_cancelled(c.world, operation) && state.phase is InFlight
                && c.outbox.receiving && !full ==> {
                &&& t.world.operations.states[operation].phase is Cancelled
                &&& t.outbox.items == c.outbox.items.push(
                    EffectCancellation { operation, generation: state.generation },
                )
            }
            &&& must_be_cancelled(c.world, operation) && state.phase is InFlight
                && !c.outbox.receiving ==> {
                &&& t.world.operations.states[operation].phase is Cancelled
                &&& t.outbox == c.outbox
            }
            &&& c.world.operations.states.contains_key(operation) && (state.phase is Settled
                || state.phase is Cancelled) ==> t == c
            &&& !(c.world.runs.states.contains_key(c.world.operations.operation_of[operation])
                && c.world.runs.states[c.world.operations.operation_of[operation]] is Cancelled)
                ==> t == c
        }),
{
}

/// When the operations of all cancelled runs are cancelled, none that was only prepared is left.
pub proof fn law_prepared_work_of_cancelled_runs_is_cancelled(c: CancelView, operation: Entity)
    requires
        c.world.operations.operation_of.dom().finite(),
        must_be_cancelled(c.world, operation),
        c.world.operations.states[operation].phase is Prepared,
    ensures
        cancel_all(c).world.operations.states[operation].phase is Cancelled,
        cancel_all(c).world.runs == c.world.runs,
{
    lemma_entities(c.world.operations.operation_of.dom());
    let ids = entities_of(c.world.operations.operation_of.dom());
    assert(ids.to_set().contains(operation));
    lemma_fold_reaches(
        ids,
        operation,
        c,
        |c: CancelView, e: Entity| cancel_step(c, e),
        |d: CancelView|
            {
                &&& d.world.runs == c.world.runs
                &&& d.world.operations.operation_of == c.world.operations.operation_of
                &&& d.world.operations.states.contains_key(operation)
                &&& d.world.operations.states[operation] == c.world.operations.states[operation]
            },
        |d: CancelView|
            {
                &&& d.world.runs == c.world.runs
                &&& d.world.operations.states.contains_key(operation)
                &&& d.world.operations.states[operation].phase is Cancelled
            },
    );
}

} // verus!
