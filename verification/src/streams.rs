//! Streams that subscriptions feed.

use vstd::prelude::*;

use crate::column::Entity;
use crate::queue::{Queue, QueueView};
use crate::run::{StreamItem, StreamItemView, SubscriptionState};
use crate::world::{RunsView, World, WorldView};

verus! {

/// The queues of all streams.
pub type StreamsView = Seq<QueueView<StreamItemView>>;

/// Whether a stream takes an item.
pub open spec fn stream_takes(streams: StreamsView, stream: u64) -> bool {
    stream < streams.len() && streams[stream as int].refusal() is None
}

/// The streams after an item was offered to one of them.
pub open spec fn stream_offered(
    streams: StreamsView,
    stream: u64,
    item: StreamItemView,
) -> StreamsView {
    if stream < streams.len() {
        streams.update(stream as int, streams[stream as int].offered(item))
    } else {
        streams
    }
}

/// The streams once nothing more is sent to one of them.
pub open spec fn stream_closed(streams: StreamsView, stream: u64) -> StreamsView {
    if stream < streams.len() {
        streams.update(stream as int, streams[stream as int].unsent())
    } else {
        streams
    }
}

/// A world together with its streams.
#[verifier::ext_equal]
pub struct StreamingView {
    pub world: WorldView,
    pub streams: StreamsView,
}

/// Whether a subscription still receives.
pub open spec fn subscription_active(w: WorldView, subscription: Entity) -> bool {
    &&& w.runs.sinks.contains_key(subscription)
    &&& w.runs.subscriptions.contains_key(subscription)
    &&& w.runs.subscriptions[subscription] == SubscriptionState::Active
}

/// The world with a subscription in the given state.
pub open spec fn with_subscription_state(
    w: WorldView,
    subscription: Entity,
    state: SubscriptionState,
) -> WorldView {
    WorldView {
        runs: RunsView {
            subscriptions: w.runs.subscriptions.insert(subscription, state),
            ..w.runs
        },
        ..w
    }
}

/// A subscription that could not keep pace is dropped, and its stream is closed.
pub open spec fn drop_subscription(s: StreamingView, subscription: Entity) -> StreamingView {
    let dropped = with_subscription_state(
        s.world,
        subscription,
        SubscriptionState::DroppedSlowConsumer,
    );
    StreamingView {
        world: WorldView {
            runs: RunsView { sinks: dropped.runs.sinks.remove(subscription), ..dropped.runs },
            ..dropped
        },
        streams: stream_closed(s.streams, s.world.runs.sinks[subscription]),
    }
}

/// Offers an item to a stream and tells whether it took it.
pub fn send_to_stream(streams: &mut Vec<Queue<StreamItem>>, stream: u64, item: StreamItem) -> (r:
    bool)
    ensures
        r == stream_takes(old(streams).deep_view(), stream),
        final(streams).deep_view() == stream_offered(old(streams).deep_view(), stream, item@),
{
    let ghost before = streams.deep_view();
    if stream >= streams.len() as u64 {
        return false;
    }
    let i: usize = stream as usize;
    let r = streams[i].try_send(item).is_ok();
    assert(streams.deep_view() =~= stream_offered(before, stream, item@));
    r
}

/// Sends nothing more to a stream.
pub fn close_stream(streams: &mut Vec<Queue<StreamItem>>, stream: u64)
    ensures
        final(streams).deep_view() == stream_closed(old(streams).deep_view(), stream),
{
    let ghost before = streams.deep_view();
    if stream < streams.len() as u64 {
        let i: usize = stream as usize;
        streams[i].stop_sending();
        assert(streams.deep_view() =~= stream_closed(before, stream));
    }
}

/// The stream of a subscription that still receives.
pub fn active_stream(world: &World, subscription: Entity) -> (r: Option<u64>)
    ensures
        match r {
            Some(stream) => subscription_active(world@, subscription)
                && world@.runs.sinks[subscription] == stream,
            None => !subscription_active(world@, subscription),
        },
{
    match (world.runs.subscriptions.get(subscription), world.runs.sinks.get(subscription)) {
        (Some(SubscriptionState::Active), Some(stream)) => Some(*stream),
        _ => None,
    }
}

/// Drops a subscription that could not keep pace.
pub fn drop_slow_consumer(
    world: &mut World,
    streams: &mut Vec<Queue<StreamItem>>,
    subscription: Entity,
    stream: u64,
)
    requires
        old(world)@.runs.sinks[subscription] == stream,
    ensures
        (StreamingView { world: final(world)@, streams: final(streams).deep_view() })
            == drop_subscription(
            (StreamingView { world: old(world)@, streams: old(streams).deep_view() }),
            subscription,
        ),
{
    world.runs.subscriptions.insert(subscription, SubscriptionState::DroppedSlowConsumer);
    let _ = world.runs.sinks.remove(subscription);
    close_stream(streams, stream);
}

} // verus!
