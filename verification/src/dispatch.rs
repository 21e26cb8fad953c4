//! Submission of prepared operations to the effect queue.

use vstd::prelude::*;

use crate::capability::PolicyProgress;
use crate::column::{entities_of, Entity};
use crate::effect::{
    CanonicalError, CanonicalErrorView, EffectDeadline, EffectInput, EffectInputView,
    EffectRequest, EffectRequestView, OperationOutcome, OperationOutcomeView, OperationPhase,
    OperationPhaseView,
};
use crate::fold::{lemma_fold_next, lemma_picked_next, picked};
use crate::numeric::saturating_sum;
use crate::queue::{Queue, QueueView, SendError};
use crate::run::RunState;
use crate::sorting::{row_values, sort_rows, sort_values, KeyPart, KeyPartView, KeyView};
use crate::world::{OperationsView, World, WorldView};

verus! {

/// Tick at which an effect that is dispatched or heard of now times out.
pub open spec fn next_deadline(w: WorldView) -> EffectDeadline {
    EffectDeadline {
        expires_at: saturating_sum(w.resources.tick, w.resources.effect_timeout_ticks),
    }
}

/// Whether an operation is prepared in the given generation.
pub open spec fn prepared_in(w: WorldView, operation: Entity, generation: u64) -> bool {
    &&& w.operations.states.contains_key(operation)
    &&& w.operations.states[operation].generation == generation
    &&& w.operations.states[operation].phase is Prepared
}

/// The world after a prepared operation entered a phase; one in flight gets a deadline.
pub open spec fn dispatched(
    w: WorldView,
    operation: Entity,
    generation: u64,
    phase: OperationPhaseView,
) -> WorldView {
    if !prepared_in(w, operation, generation) {
        w
    } else if phase is InFlight {
        WorldView {
            operations: OperationsView {
                deadlines: w.operations.deadlines.insert(operation, next_deadline(w)),
                ..w.with_phase(operation, phase).operations
            },
            ..w
        }
    } else {
        w.with_phase(operation, phase)
    }
}

/// A world in the course of a dispatch, with the effect queue and whether anything was submitted
/// or settled.
#[verifier::ext_equal]
pub struct DispatchView {
    pub world: WorldView,
    pub outbox: QueueView<EffectRequestView>,
    pub progress: bool,
}

/// The dispatch after one request was offered to the queue: it is in flight, or it stays
/// prepared while the queue is full, or it fails where no executor is left.
pub open spec fn dispatch_request(d: DispatchView, request: EffectRequestView) -> DispatchView {
    match d.outbox.refusal() {
        None => DispatchView {
            world: dispatched(
                d.world,
                request.operation,
                request.generation,
                OperationPhaseView::InFlight,
            ),
            outbox: d.outbox.offered(request),
            progress: true,
        },
        Some(SendError::Full) => d,
        Some(SendError::Disconnected) => DispatchView {
            world: dispatched(
                d.world,
                request.operation,
                request.generation,
                OperationPhaseView::Settled(
                    OperationOutcomeView::Failure(CanonicalErrorView::ExecutorDisconnected),
                ),
            ),
            progress: true,
            ..d
        },
    }
}

/// The dispatch after all requests were offered, one after the other.
pub open spec fn dispatch_requests(
    w: WorldView,
    outbox: QueueView<EffectRequestView>,
    requests: Seq<EffectRequestView>,
) -> DispatchView {
    let d = requests.fold_left(
        DispatchView { world: w, outbox, progress: false },
        |d: DispatchView, r: EffectRequestView| dispatch_request(d, r),
    );
    if d.progress {
        DispatchView { world: d.world.progressed(), ..d }
    } else {
        d
    }
}

/// Whether a run waits for a model.
pub open spec fn waits_for_model(w: WorldView, run: Entity) -> bool {
    w.runs.states.contains_key(run) && w.runs.states[run] is WaitingModel
}

/// Whether a run waits for tools.
pub open spec fn waits_for_tools(w: WorldView, run: Entity) -> bool {
    w.runs.states.contains_key(run) && w.runs.states[run] is WaitingTools
}

/// Whether a run waits for a store.
pub open spec fn waits_for_store(w: WorldView, run: Entity) -> bool {
    w.runs.states.contains_key(run) && w.runs.states[run] is WaitingStore
}

/// The request of a model operation that may be dispatched, ordered by the id of its run.
pub open spec fn model_request(w: WorldView, e: Entity) -> Option<(KeyView, EffectRequestView)> {
    let run = w.operations.operation_of[e];
    if w.operations.model_inputs.contains_key(e) && !w.operations.tool_inputs.contains_key(e)
        && w.operations.operation_of.contains_key(e) && w.operations.policy_progress.contains_key(e)
        && w.operations.states.contains_key(e) && w.operations.states[e].phase is Prepared
        && w.operations.policy_progress[e] == PolicyProgress::Accepted && waits_for_model(w, run)
        && w.stable_ids.contains_key(run) {
        Some(
            (
                seq![KeyPartView::Text(w.stable_ids[run]), KeyPartView::Number(e.0)],
                EffectRequestView {
                    operation: e,
                    generation: w.operations.states[e].generation,
                    input: EffectInputView::Model(w.operations.model_inputs[e]),
                },
            ),
        )
    } else {
        None
    }
}

/// The request of a tool operation that may be dispatched, ordered by its batch and its position
/// in it.
pub open spec fn tool_request(w: WorldView, e: Entity) -> Option<(KeyView, EffectRequestView)> {
    let batch = w.operations.operation_of_batch[e];
    if w.operations.tool_inputs.contains_key(e) && !w.operations.model_inputs.contains_key(e)
        && w.operations.operation_of_batch.contains_key(e) && w.operations.states.contains_key(e)
        && w.operations.batch_of.contains_key(batch) && w.operations.states[e].phase is Prepared
        && waits_for_tools(w, w.operations.batch_of[batch]) {
        Some(
            (
                seq![
                    KeyPartView::Number(batch.0),
                    KeyPartView::Number(w.operations.tool_inputs[e].index as u64),
                    KeyPartView::Number(e.0),
                ],
                EffectRequestView {
                    operation: e,
                    generation: w.operations.states[e].generation,
                    input: EffectInputView::Tool(w.operations.tool_inputs[e]),
                },
            ),
        )
    } else {
        None
    }
}

/// The request of a discovery operation that may be dispatched, ordered by the id of its source.
pub open spec fn discovery_request(w: WorldView, e: Entity) -> Option<
    (KeyView, EffectRequestView),
> {
    if w.operations.discovery_inputs.contains_key(e) && w.operations.states.contains_key(e)
        && w.operations.states[e].phase is Prepared {
        Some(
            (
                seq![
                    KeyPartView::Text(w.operations.discovery_inputs[e].source_id),
                    KeyPartView::Number(e.0),
                ],
                EffectRequestView {
                    operation: e,
                    generation: w.operations.states[e].generation,
                    input: EffectInputView::Discovery(w.operations.discovery_inputs[e]),
                },
            ),
        )
    } else {
        None
    }
}

/// The request of a store operation that may be dispatched, ordered by the id of its run.
pub open spec fn store_request(w: WorldView, e: Entity) -> Option<(KeyView, EffectRequestView)> {
    let run = w.operations.operation_of[e];
    if w.operations.store_inputs.contains_key(e) && w.operations.operation_of.contains_key(e)
        && w.operations.states.contains_key(e) && w.operations.states[e].phase is Prepared
        && waits_for_store(w, run) && w.stable_ids.contains_key(run) {
        Some(
            (
                seq![KeyPartView::Text(w.stable_ids[run]), KeyPartView::Number(e.0)],
                EffectRequestView {
                    operation: e,
                    generation: w.operations.states[e].generation,
                    input: EffectInputView::Store(w.operations.store_inputs[e]),
                },
            ),
        )
    } else {
        None
    }
}

/// The model requests of a world, in the order in which they are offered.
pub open spec fn model_requests(w: WorldView) -> Seq<EffectRequestView> {
    row_values(
        sort_rows(
            picked(entities_of(w.operations.model_inputs.dom()), |e: Entity| model_request(w, e)),
        ),
    )
}

/// The tool requests of a world, in the order in which they are offered.
pub open spec fn tool_requests(w: WorldView) -> Seq<EffectRequestView> {
    row_values(
        sort_rows(
            picked(entities_of(w.operations.tool_inputs.dom()), |e: Entity| tool_request(w, e)),
        ),
    )
}

/// The discovery requests of a world, in the order in which they are offered.
pub open spec fn discovery_requests(w: WorldView) -> Seq<EffectRequestView> {
    row_values(
        sort_rows(
            picked(entities_of(w.operations.discovery_inputs.dom()), |e: Entity| discovery_request(w, e)),
        ),
    )
}

/// The store requests of a world, in the order in which they are offered.
pub open spec fn store_requests(w: WorldView) -> Seq<EffectRequestView> {
    row_values(
        sort_rows(
            picked(entities_of(w.operations.store_inputs.dom()), |e: Entity| store_request(w, e)),
        ),
    )
}

/// Moves a prepared operation to a phase; one in flight gets a deadline.
pub fn apply_dispatch_phase(
    world: &mut World,
    operation: Entity,
    generation: u64,
    phase: OperationPhase,
)
    ensures
        final(world)@ == dispatched(old(world)@, operation, generation, phase@),
{
    let in_flight = matches!(phase, OperationPhase::InFlight);
    let ready = match world.operations.states.get(operation) {
        Some(state) => state.generation == generation && matches!(
            state.phase,
            OperationPhase::Prepared
        ),
        None => false,
    };
    if !ready {
        return;
    }
    world.set_phase(operation, phase);
    if in_flight {
        let expires_at: u64 = world.resources.tick.saturating_add(
            world.resources.effect_timeout_ticks,
        );
        world.operations.deadlines.insert(operation, EffectDeadline { expires_at });
    }
}

fn submit(world: &mut World, outbox: &mut Queue<EffectRequest>, requests: Vec<EffectRequest>)
    ensures
        ({
            let d = dispatch_requests(old(world)@, old(outbox)@, requests.deep_view());
            final(world)@ == d.world && final(outbox)@ == d.outbox
        }),
{
    broadcast use crate::fold::group_fold;

    let ghost views = requests.deep_view();
    let ghost start = DispatchView { world: world@, outbox: outbox@, progress: false };
    let ghost step = |d: DispatchView, r: EffectRequestView| dispatch_request(d, r);
    let mut made_progress = false;
    let mut i: usize = 0;
    while i < requests.len()
        invariant
            i <= requests@.len(),
            views == requests.deep_view(),
            step == (|d: DispatchView, r: EffectRequestView| dispatch_request(d, r)),
            (DispatchView { world: world@, outbox: outbox@, progress: made_progress })
                == views.take(i as int).fold_left(start, step),
        decreases requests@.len() - i,
    {
        proof {
            lemma_fold_next(views, i as int, start, step);
            assert(views[i as int] == requests@[i as int]@);
        }
        let request = requests[i].clone();
        let operation = request.operation;
        let generation: u64 = request.generation;
        match outbox.try_send(request) {
            Ok(_) => {
                made_progress = true;
                apply_dispatch_phase(world, operation, generation, OperationPhase::InFlight);
            },
            Err(SendError::Full) => {},
            Err(SendError::Disconnected) => {
                made_progress = true;
                apply_dispatch_phase(
                    world,
                    operation,
                    generation,
                    OperationPhase::Settled(
                        OperationOutcome::Failure(CanonicalError::ExecutorDisconnected),
                    ),
                );
            },
        }
        i = i + 1;
    }
    if made_progress {
        world.mark_progress();
    }
}

fn is_prepared(world: &World, e: Entity) -> (r: Option<u64>)
    ensures
        match r {
            Some(generation) => {
                &&& world@.operations.states.contains_key(e)
                &&& world@.operations.states[e].phase is Prepared
                &&& world@.operations.states[e].generation == generation
            },
            None => !(world@.operations.states.contains_key(e)
                && world@.operations.states[e].phase is Prepared),
        },
{
    match world.operations.states.get(e) {
        Some(state) => match state.phase {
            OperationPhase::Prepared => Some(state.generation),
            _ => None,
        },
        None => None,
    }
}

fn run_key(world: &World, run: Entity, e: Entity) -> (r: Option<Vec<KeyPart>>)
    ensures
        match r {
            Some(key) => world@.stable_ids.contains_key(run) && key.deep_view() == seq![
                KeyPartView::Text(world@.stable_ids[run]),
                KeyPartView::Number(e.0),
            ],
            None => !world@.stable_ids.contains_key(run),
        },
{
    match world.stable_ids.get(run) {
        Some(id) => {
            let key = vec![KeyPart::Text(id.text()), KeyPart::Number(e.to_bits())];
            proof {
                assert(key.deep_view() =~= seq![
                    KeyPartView::Text(id@),
                    KeyPartView::Number(e.0),
                ]);
            }
            Some(key)
        },
        None => None,
    }
}

fn request_model(world: &World, e: Entity) -> (r: Option<(Vec<KeyPart>, EffectRequest)>)
    ensures
        r.deep_view() == model_request(world@, e),
{
    if world.operations.tool_inputs.contains(e) {
        return None;
    }
    match world.operations.policy_progress.get(e) {
        Some(PolicyProgress::Accepted) => {},
        _ => {
            return None;
        },
    }
    match (
        is_prepared(world, e),
        world.operations.operation_of.get(e),
        world.operations.model_inputs.get(e),
    ) {
        (Some(generation), Some(run), Some(input)) => {
            match world.runs.states.get(*run) {
                Some(RunState::WaitingModel { .. }) => {},
                _ => {
                    return None;
                },
            }
            match run_key(world, *run, e) {
                Some(key) => Some(
                    (
                        key,
                        EffectRequest {
                            operation: e,
                            generation,
                            input: EffectInput::Model(input.clone()),
                        },
                    ),
                ),
                None => None,
            }
        },
        _ => None,
    }
}

fn request_tool(world: &World, e: Entity) -> (r: Option<(Vec<KeyPart>, EffectRequest)>)
    ensures
        r.deep_view() == tool_request(world@, e),
{
    if world.operations.model_inputs.contains(e) {
        return None;
    }
    match (
        is_prepared(world, e),
        world.operations.operation_of_batch.get(e),
        world.operations.tool_inputs.get(e),
    ) {
        (Some(generation), Some(batch), Some(input)) => {
            match world.operations.batch_of.get(*batch) {
                Some(run) => match world.runs.states.get(*run) {
                    Some(RunState::WaitingTools { .. }) => {},
                    _ => {
                        return None;
                    },
                },
                None => {
                    return None;
                },
            }
            let key = vec![
                KeyPart::Number(batch.to_bits()),
                KeyPart::Number(input.index as u64),
                KeyPart::Number(e.to_bits()),
            ];
            proof {
                assert(key.deep_view() =~= seq![
                    KeyPartView::Number(batch.0),
                    KeyPartView::Number(input.index as u64),
                    KeyPartView::Number(e.0),
                ]);
            }
            Some(
                (
                    key,
                    EffectRequest {
                        operation: e,
                        generation,
                        input: EffectInput::Tool(input.clone()),
                    },
                ),
            )
        },
        _ => None,
    }
}

fn request_discovery(world: &World, e: Entity) -> (r: Option<(Vec<KeyPart>, EffectRequest)>)
    ensures
        r.deep_view() == discovery_request(world@, e),
{
    match (is_prepared(world, e), world.operations.discovery_inputs.get(e)) {
        (Some(generation), Some(input)) => {
            let key = vec![KeyPart::Text(input.source_id.text()), KeyPart::Number(e.to_bits())];
            proof {
                assert(key.deep_view() =~= seq![
                    KeyPartView::Text(input.source_id@),
                    KeyPartView::Number(e.0),
                ]);
            }
            Some(
                (
                    key,
                    EffectRequest {
                        operation: e,
                        generation,
                        input: EffectInput::Discovery(input.clone()),
                    },
                ),
            )
        },
        _ => None,
    }
}

fn request_store(world: &World, e: Entity) -> (r: Option<(Vec<KeyPart>, EffectRequest)>)
    ensures
        r.deep_view() == store_request(world@, e),
{
    match (
        is_prepared(world, e),
        world.operations.operation_of.get(e),
        world.operations.store_inputs.get(e),
    ) {
        (Some(generation), Some(run), Some(input)) => {
            match world.runs.states.get(*run) {
                Some(RunState::WaitingStore { .. }) => {},
                _ => {
                    return None;
                },
            }
            match run_key(world, *run, e) {
                Some(key) => Some(
                    (
                        key,
                        EffectRequest {
                            operation: e,
                            generation,
                            input: EffectInput::Store(input.clone()),
                        },
                    ),
                ),
                None => None,
            }
        },
        _ => None,
    }
}

/// Offers every model operation that may be dispatched to the effect queue.
pub fn dispatch_model_operations(world: &mut World, outbox: &mut Queue<EffectRequest>)
    ensures
        ({
            let d = dispatch_requests(old(world)@, old(outbox)@, model_requests(old(world)@));
            final(world)@ == d.world && final(outbox)@ == d.outbox
        }),
{
    broadcast use crate::fold::group_fold;

    let ids = world.operations.model_inputs.entities();
    let ghost pick = |e: Entity| model_request(world@, e);
    let mut rows: Vec<(Vec<KeyPart>, EffectRequest)> = Vec::new();
    let mut i: usize = 0;
    assert(rows.deep_view() =~= Seq::empty());
    while i < ids.len()
        invariant
            i <= ids@.len(),
            pick == (|e: Entity| model_request(world@, e)),
            rows.deep_view() == picked(ids@.take(i as int), pick),
        decreases ids@.len() - i,
    {
        proof {
            lemma_picked_next(ids@, i as int, pick);
        }
        let ghost before = rows.deep_view();
        if let Some(row) = request_model(world, ids[i]) {
            rows.push(row);
            assert(rows.deep_view() =~= before.push(row.deep_view()));
        }
        i = i + 1;
    }
    submit(world, outbox, sort_values(rows));
}

/// Offers every tool operation that may be dispatched to the effect queue.
pub fn dispatch_tool_operations(world: &mut World, outbox: &mut Queue<EffectRequest>)
    ensures
        ({
            let d = dispatch_requests(old(world)@, old(outbox)@, tool_requests(old(world)@));
            final(world)@ == d.world && final(outbox)@ == d.outbox
        }),
{
    broadcast use crate::fold::group_fold;

    let ids = world.operations.tool_inputs.entities();
    let ghost pick = |e: Entity| tool_request(world@, e);
    let mut rows: Vec<(Vec<KeyPart>, EffectRequest)> = Vec::new();
    let mut i: usize = 0;
    assert(rows.deep_view() =~= Seq::empty());
    while i < ids.len()
        invariant
            i <= ids@.len(),
            pick == (|e: Entity| tool_request(world@, e)),
            rows.deep_view() == picked(ids@.take(i as int), pick),
        decreases ids@.len() - i,
    {
        proof {
            lemma_picked_next(ids@, i as int, pick);
        }
        let ghost before = rows.deep_view();
        if let Some(row) = request_tool(world, ids[i]) {
            rows.push(row);
            assert(rows.deep_view() =~= before.push(row.deep_view()));
        }
        i = i + 1;
    }
    submit(world, outbox, sort_values(rows));
}

/// Offers every discovery operation that may be dispatched to the effect queue.
pub fn dispatch_discovery_operations(world: &mut World, outbox: &mut Queue<EffectRequest>)
    ensures
        ({
            let d = dispatch_requests(old(world)@, old(outbox)@, discovery_requests(old(world)@));
            final(world)@ == d.world && final(outbox)@ == d.outbox
        }),
{
    broadcast use crate::fold::group_fold;

    let ids = world.operations.discovery_inputs.entities();
    let ghost pick = |e: Entity| discovery_request(world@, e);
    let mut rows: Vec<(Vec<KeyPart>, EffectRequest)> = Vec::new();
    let mut i: usize = 0;
    assert(rows.deep_view() =~= Seq::empty());
    while i < ids.len()
        invariant
            i <= ids@.len(),
            pick == (|e: Entity| discovery_request(world@, e)),
            rows.deep_view() == picked(ids@.take(i as int), pick),
        decreases ids@.len() - i,
    {
        proof {
            lemma_picked_next(ids@, i as int, pick);
        }
        let ghost before = rows.deep_view();
        if let Some(row) = request_discovery(world, ids[i]) {
            rows.push(row);
            assert(rows.deep_view() =~= before.push(row.deep_view()));
        }
        i = i + 1;
    }
    submit(world, outbox, sort_values(rows));
}

/// Offers every store operation that may be dispatched to the effect queue.
pub fn dispatch_store_operations(world: &mut World, outbox: &mut Queue<EffectRequest>)
    ensures
        ({
            let d = dispatch_requests(old(world)@, old(outbox)@, store_requests(old(world)@));
            final(world)@ == d.world && final(outbox)@ == d.outbox
        }),
{
    broadcast use crate::fold::group_fold;

    let ids = world.operations.store_inputs.entities();
    let ghost pick = |e: Entity| store_request(world@, e);
    let mut rows: Vec<(Vec<KeyPart>, EffectRequest)> = Vec::new();
    let mut i: usize = 0;
    assert(rows.deep_view() =~= Seq::empty());
    while i < ids.len()
        invariant
            i <= ids@.len(),
            pick == (|e: Entity| store_request(world@, e)),
            rows.deep_view() == picked(ids@.take(i as int), pick),
        decreases ids@.len() - i,
    {
        proof {
            lemma_picked_next(ids@, i as int, pick);
        }
        let ghost before = rows.deep_view();
        if let Some(row) = request_store(world, ids[i]) {
            rows.push(row);
            assert(rows.deep_view() =~= before.push(row.deep_view()));
        }
        i = i + 1;
    }
    submit(world, outbox, sort_values(rows));
}

} // verus!
