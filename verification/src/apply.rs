//! Application of completions, deltas, deadlines and cancellations to operations.

use vstd::prelude::*;

use crate::column::{entities_of, sources_of, Entity};
use crate::dispatch::next_deadline;
use crate::effect::{
    CanonicalError, CanonicalErrorView, EffectCancellation, EffectCompletion,
    EffectCompletionView, EffectDeadline, EffectDelta, EffectDeltaView, EffectIngress,
    EffectIngressView, EffectOutput, EffectOutputView, OperationKind, OperationOutcome,
    OperationOutcomeView, OperationPhase, OperationPhaseView,
};
use crate::fold::lemma_fold_next;
use crate::queue::{Queue, QueueView, SendError};
use crate::run::{ModelStreamState, RunState, StreamItem, StreamItemView};
use crate::streams::{
    active_stream, drop_slow_consumer, drop_subscription, send_to_stream, stream_offered,
    stream_takes, subscription_active, StreamingView,
};
use crate::world::{OperationsView, ResourcesView, World, WorldView};

verus! {

/// Whether an output is of the kind of its operation.
pub open spec fn output_fits(kind: OperationKind, output: EffectOutputView) -> bool {
    match (kind, output) {
        (OperationKind::Model, EffectOutputView::Model(_)) => true,
        (OperationKind::Tool, EffectOutputView::Tool(_)) => true,
        (OperationKind::Discovery, EffectOutputView::Discovery(_)) => true,
        (OperationKind::Store, EffectOutputView::Store(_)) => true,
        _ => false,
    }
}

/// The outcome that a completion gives an operation of the given kind.
pub open spec fn completion_outcome(
    kind: OperationKind,
    result: Result<EffectOutputView, CanonicalErrorView>,
) -> OperationOutcomeView {
    match result {
        Ok(output) => if output_fits(kind, output) {
            OperationOutcomeView::Success(output)
        } else {
            OperationOutcomeView::Failure(CanonicalErrorView::EffectKindMismatch)
        },
        Err(error) => OperationOutcomeView::Failure(error),
    }
}

/// Whether an operation is in flight in the given generation.
pub open spec fn in_flight(w: WorldView, operation: Entity, generation: u64) -> bool {
    &&& w.operations.kinds.contains_key(operation)
    &&& w.operations.states.contains_key(operation)
    &&& w.operations.states[operation].generation == generation
    &&& w.operations.states[operation].phase is InFlight
}

/// The world after a completion arrived: it settles the operation that it belongs to, if that is
/// in flight in the same generation, and is ignored otherwise.
pub open spec fn apply_completion(w: WorldView, completion: EffectCompletionView) -> WorldView {
    if !in_flight(w, completion.operation, completion.generation) {
        w
    } else {
        w.with_phase(
            completion.operation,
            OperationPhaseView::Settled(
                completion_outcome(
                    w.operations.kinds[completion.operation],
                    completion.result,
                ),
            ),
        ).progressed()
    }
}

/// Whether a delta is the next one of a model operation in flight.
pub open spec fn delta_expected(w: WorldView, delta: EffectDeltaView) -> bool {
    &&& in_flight(w, delta.operation, delta.generation)
    &&& w.operations.kinds[delta.operation] == OperationKind::Model
    &&& w.operations.stream_states.contains_key(delta.operation)
    &&& w.operations.operation_of.contains_key(delta.operation)
    &&& w.operations.stream_states[delta.operation].next_sequence == delta.sequence
}

/// The world in which a model operation counts a delta as received and its deadline starts anew.
pub open spec fn with_delta_counted(w: WorldView, operation: Entity) -> WorldView {
    let next = w.operations.stream_states[operation].next_sequence;
    WorldView {
        operations: OperationsView {
            stream_states: w.operations.stream_states.insert(
                operation,
                ModelStreamState {
                    next_sequence: if next == u64::MAX {
                        u64::MAX
                    } else {
                        (next + 1) as u64
                    },
                },
            ),
            deadlines: if w.operations.deadlines.contains_key(operation) {
                w.operations.deadlines.insert(operation, next_deadline(w))
            } else {
                w.operations.deadlines
            },
            ..w.operations
        },
        ..w
    }
}

/// One subscription receives a delta; one whose stream does not take it is dropped.
pub open spec fn deliver_delta(
    s: StreamingView,
    subscription: Entity,
    item: StreamItemView,
) -> StreamingView {
    if !subscription_active(s.world, subscription) {
        s
    } else {
        let stream = s.world.runs.sinks[subscription];
        if stream_takes(s.streams, stream) {
            StreamingView { streams: stream_offered(s.streams, stream, item), ..s }
        } else {
            drop_subscription(s, subscription)
        }
    }
}

/// The world and the streams after a delta arrived: the next one of its operation goes to every
/// subscription of the run, and any other is ignored.
pub open spec fn apply_delta(s: StreamingView, delta: EffectDeltaView) -> StreamingView {
    if !delta_expected(s.world, delta) {
        s
    } else {
        let run = s.world.operations.operation_of[delta.operation];
        let item = StreamItemView::Delta { sequence: delta.sequence, text: delta.text };
        let counted = StreamingView {
            world: with_delta_counted(s.world, delta.operation),
            ..s
        };
        let delivered = sources_of(s.world.runs.subscription_of, run).fold_left(
            counted,
            |s: StreamingView, e: Entity| deliver_delta(s, e, item),
        );
        StreamingView { world: delivered.world.progressed(), ..delivered }
    }
}

/// The world and the streams after one message of the effect boundary.
pub open spec fn apply_message(s: StreamingView, message: EffectIngressView) -> StreamingView {
    match message {
        EffectIngressView::Completion(completion) => StreamingView {
            world: apply_completion(s.world, completion),
            ..s
        },
        EffectIngressView::Delta(delta) => apply_delta(s, delta),
    }
}

/// The world and the streams after every waiting message, in the order of their arrival.
pub open spec fn apply_messages(s: StreamingView) -> StreamingView {
    let taken = WorldView {
        resources: ResourcesView { messages: Seq::empty(), ..s.world.resources },
        ..s.world
    };
    s.world.resources.messages.fold_left(
        StreamingView { world: taken, ..s },
        |s: StreamingView, m: EffectIngressView| apply_message(s, m),
    )
}

/// The world after the deadline of one operation was looked at.
pub open spec fn expire_step(w: WorldView, operation: Entity) -> WorldView {
    if w.operations.states.contains_key(operation) && w.operations.deadlines.contains_key(operation)
        && w.operations.states[operation].phase is InFlight && w.resources.tick
        >= w.operations.deadlines[operation].expires_at {
        w.with_phase(
            operation,
            OperationPhaseView::Settled(
                OperationOutcomeView::Failure(CanonicalErrorView::Timeout),
            ),
        ).progressed()
    } else {
        w
    }
}

/// The world after every deadline was looked at.
pub open spec fn expire_all(w: WorldView) -> WorldView {
    entities_of(w.operations.deadlines.dom()).fold_left(
        w,
        |w: WorldView, e: Entity| expire_step(w, e),
    )
}

/// A world together with the queue of cancellation requests.
#[verifier::ext_equal]
pub struct CancelView {
    pub world: WorldView,
    pub outbox: QueueView<EffectCancellation>,
}

/// Whether an operation belongs to a cancelled run and is not over.
pub open spec fn cancellation_due(w: WorldView, operation: Entity) -> bool {
    let run = w.operations.operation_of[operation];
    &&& w.operations.operation_of.contains_key(operation)
    &&& w.operations.states.contains_key(operation)
    &&& w.runs.states.contains_key(run)
    &&& w.runs.states[run] is Cancelled
    &&& !(w.operations.states[operation].phase is Settled)
    &&& !(w.operations.states[operation].phase is Cancelled)
    &&& !(w.operations.states[operation].phase is ExtensionSettled)
}

/// The state after the operation of a cancelled run was cancelled. The executor of one in flight
/// is told; while its queue is full the operation waits.
pub open spec fn cancel_step(c: CancelView, operation: Entity) -> CancelView {
    if !cancellation_due(c.world, operation) {
        c
    } else {
        let state = c.world.operations.states[operation];
        let notice = EffectCancellation { operation, generation: state.generation };
        let cancelled = c.world.with_phase(
            operation,
            OperationPhaseView::Cancelled,
        ).progressed();
        if !(state.phase is InFlight) {
            CancelView { world: cancelled, ..c }
        } else if c.outbox.refusal() == Some(SendError::Full) {
            c
        } else {
            CancelView { world: cancelled, outbox: c.outbox.offered(notice) }
        }
    }
}

/// The state after the operations of all cancelled runs were cancelled.
pub open spec fn cancel_all(c: CancelView) -> CancelView {
    entities_of(c.world.operations.operation_of.dom()).fold_left(
        c,
        |c: CancelView, e: Entity| cancel_step(c, e),
    )
}

fn fits(kind: OperationKind, output: &EffectOutput) -> (r: bool)
    ensures
        r == output_fits(kind, output@),
{
    match (kind, output) {
        (OperationKind::Model, EffectOutput::Model(_)) => true,
        (OperationKind::Tool, EffectOutput::Tool(_)) => true,
        (OperationKind::Discovery, EffectOutput::Discovery(_)) => true,
        (OperationKind::Store, EffectOutput::Store(_)) => true,
        _ => false,
    }
}

fn operation_in_flight(world: &World, operation: Entity, generation: u64) -> (r: Option<
    OperationKind,
>)
    ensures
        match r {
            Some(kind) => in_flight(world@, operation, generation)
                && world@.operations.kinds[operation] == kind,
            None => !in_flight(world@, operation, generation),
        },
{
    let flying = match world.operations.states.get(operation) {
        Some(state) => state.generation == generation && matches!(
            state.phase,
            OperationPhase::InFlight
        ),
        None => false,
    };
    if !flying {
        return None;
    }
    match world.operations.kinds.get(operation) {
        Some(kind) => Some(*kind),
        None => None,
    }
}

/// Settles the operation that a completion belongs to.
pub fn apply_effect_completion(world: &mut World, completion: &EffectCompletion)
    ensures
        final(world)@ == apply_completion(old(world)@, completion@),
{
    if let Some(kind) = operation_in_flight(world, completion.operation, completion.generation) {
        let outcome = match &completion.result {
            Ok(output) => if fits(kind, output) {
                OperationOutcome::Success(output.clone())
            } else {
                OperationOutcome::Failure(CanonicalError::EffectKindMismatch)
            },
            Err(error) => OperationOutcome::Failure(error.clone()),
        };
        world.set_phase(completion.operation, OperationPhase::Settled(outcome));
        world.mark_progress();
    }
}

fn deliver(
    world: &mut World,
    streams: &mut Vec<Queue<StreamItem>>,
    subscription: Entity,
    item: &StreamItem,
)
    ensures
        (StreamingView { world: final(world)@, streams: final(streams).deep_view() })
            == deliver_delta(
            (StreamingView { world: old(world)@, streams: old(streams).deep_view() }),
            subscription,
            item@,
        ),
{
    if let Some(stream) = active_stream(world, subscription) {
        let ghost before = streams.deep_view();
        if !send_to_stream(streams, stream, item.clone()) {
            assert(streams.deep_view() =~= before);
            drop_slow_consumer(world, streams, subscription, stream);
        }
    }
}

/// Counts a delta and hands it to the subscriptions of its run.
pub fn apply_effect_delta(
    world: &mut World,
    streams: &mut Vec<Queue<StreamItem>>,
    delta: &EffectDelta,
)
    ensures
        (StreamingView { world: final(world)@, streams: final(streams).deep_view() })
            == apply_delta(
            (StreamingView { world: old(world)@, streams: old(streams).deep_view() }),
            delta@,
        ),
{
    broadcast use crate::fold::group_fold;

    match operation_in_flight(world, delta.operation, delta.generation) {
        Some(OperationKind::Model) => {},
        _ => {
            return;
        },
    }
    let next: u64 = match world.operations.stream_states.get(delta.operation) {
        Some(state) => state.next_sequence,
        None => {
            return;
        },
    };
    let run = match world.operations.operation_of.get(delta.operation) {
        Some(run) => *run,
        None => {
            return;
        },
    };
    if next != delta.sequence {
        return;
    }
    assert(delta_expected(world@, delta@));
    world.operations.stream_states.insert(
        delta.operation,
        ModelStreamState { next_sequence: next.saturating_add(1) },
    );
    if world.operations.deadlines.contains(delta.operation) {
        let expires_at: u64 = world.resources.tick.saturating_add(
            world.resources.effect_timeout_ticks,
        );
        world.operations.deadlines.insert(delta.operation, EffectDeadline { expires_at });
    }
    let ids = world.runs.subscription_of.sources(run);
    let item = StreamItem::Delta { sequence: delta.sequence, text: delta.text.clone() };
    let ghost view = item@;
    let ghost start = StreamingView { world: world@, streams: streams.deep_view() };
    let ghost step = |s: StreamingView, e: Entity| deliver_delta(s, e, view);
    let mut i: usize = 0;
    while i < ids.len()
        invariant
            i <= ids@.len(),
            view == item@,
            step == (|s: StreamingView, e: Entity| deliver_delta(s, e, view)),
            (StreamingView { world: world@, streams: streams.deep_view() }) == ids@.take(
                i as int,
            ).fold_left(start, step),
        decreases ids@.len() - i,
    {
        proof {
            lemma_fold_next(ids@, i as int, start, step);
        }
        deliver(world, streams, ids[i], &item);
        i = i + 1;
    }
    world.mark_progress();
}

/// Applies every waiting message of the effect boundary.
pub fn apply_effect_ingress(world: &mut World, streams: &mut Vec<Queue<StreamItem>>)
    ensures
        (StreamingView { world: final(world)@, streams: final(streams).deep_view() })
            == apply_messages(
            (StreamingView { world: old(world)@, streams: old(streams).deep_view() }),
        ),
{
    broadcast use crate::fold::group_fold;

    let mut messages: Vec<EffectIngress> = Vec::new();
    std::mem::swap(&mut messages, &mut world.resources.messages);
    assert(world.resources.messages.deep_view() =~= Seq::empty());
    let ghost views = messages.deep_view();
    let ghost start = StreamingView { world: world@, streams: streams.deep_view() };
    let ghost step = |s: StreamingView, m: EffectIngressView| apply_message(s, m);
    let mut i: usize = 0;
    while i < messages.len()
        invariant
            i <= messages@.len(),
            views == messages.deep_view(),
            step == (|s: StreamingView, m: EffectIngressView| apply_message(s, m)),
            (StreamingView { world: world@, streams: streams.deep_view() }) == views.take(
                i as int,
            ).fold_left(start, step),
        decreases messages@.len() - i,
    {
        proof {
            lemma_fold_next(views, i as int, start, step);
            assert(views[i as int] == messages@[i as int]@);
        }
        match &messages[i] {
            EffectIngress::Completion(completion) => {
                apply_effect_completion(world, completion);
            },
            EffectIngress::Delta(delta) => {
                apply_effect_delta(world, streams, delta);
            },
        }
        i = i + 1;
    }
}

/// Settles every operation in flight whose deadline has passed.
pub fn expire_effects(world: &mut World)
    ensures
        final(world)@ == expire_all(old(world)@),
{
    broadcast use crate::fold::group_fold;

    let ids = world.operations.deadlines.entities();
    let ghost start = world@;
    let ghost step = |w: WorldView, e: Entity| expire_step(w, e);
    let mut i: usize = 0;
    while i < ids.len()
        invariant
            i <= ids@.len(),
            step == (|w: WorldView, e: Entity| expire_step(w, e)),
            world@ == ids@.take(i as int).fold_left(start, step),
        decreases ids@.len() - i,
    {
        proof {
            lemma_fold_next(ids@, i as int, start, step);
        }
        let e = ids[i];
        let flying = match world.operations.states.get(e) {
            Some(state) => matches!(state.phase, OperationPhase::InFlight),
            None => false,
        };
        let passed = match world.operations.deadlines.get(e) {
            Some(deadline) => world.resources.tick >= deadline.expires_at,
            None => false,
        };
        if flying && passed {
            world.set_phase(
                e,
                OperationPhase::Settled(OperationOutcome::Failure(CanonicalError::Timeout)),
            );
            world.mark_progress();
        }
        i = i + 1;
    }
}

/// Cancels one operation, if its run was cancelled.
pub fn cancel_operation(
    world: &mut World,
    outbox: &mut Queue<EffectCancellation>,
    operation: Entity,
)
    ensures
        (CancelView { world: final(world)@, outbox: final(outbox)@ }) == cancel_step(
            (CancelView { world: old(world)@, outbox: old(outbox)@ }),
            operation,
        ),
{
    let run = match world.operations.operation_of.get(operation) {
        Some(run) => *run,
        None => {
            return;
        },
    };
    match world.runs.states.get(run) {
        Some(RunState::Cancelled) => {},
        _ => {
            return;
        },
    }
    let generation: u64;
    let flying: bool;
    match world.operations.states.get(operation) {
        Some(state) => match &state.phase {
            OperationPhase::Settled(_) | OperationPhase::Cancelled
            | OperationPhase::ExtensionSettled => {
                return;
            },
            OperationPhase::InFlight => {
                generation = state.generation;
                flying = true;
            },
            OperationPhase::Prepared | OperationPhase::Superseded => {
                generation = state.generation;
                flying = false;
            },
        },
        None => {
            return;
        },
    }
    assert(cancellation_due(world@, operation));
    if flying {
        match outbox.try_send(EffectCancellation { operation, generation }) {
            Err(SendError::Full) => {
                return;
            },
            _ => {},
        }
    }
    world.set_phase(operation, OperationPhase::Cancelled);
    world.mark_progress();
}

/// Cancels the operations of all cancelled runs.
pub fn propagate_cancellation(world: &mut World, outbox: &mut Queue<EffectCancellation>)
    ensures
        (CancelView { world: final(world)@, outbox: final(outbox)@ }) == cancel_all(
            (CancelView { world: old(world)@, outbox: old(outbox)@ }),
        ),
{
    broadcast use crate::fold::group_fold;

    let ids = world.operations.operation_of.entities();
    let ghost start = CancelView { world: world@, outbox: outbox@ };
    let ghost step = |c: CancelView, e: Entity| cancel_step(c, e);
    let mut i: usize = 0;
    while i < ids.len()
        invariant
            i <= ids@.len(),
            step == (|c: CancelView, e: Entity| cancel_step(c, e)),
            (CancelView { world: world@, outbox: outbox@ }) == ids@.take(i as int).fold_left(
                start,
                step,
            ),
        decreases ids@.len() - i,
    {
        proof {
            lemma_fold_next(ids@, i as int, start, step);
        }
        cancel_operation(world, outbox, ids[i]);
        i = i + 1;
    }
}

} // verus!
