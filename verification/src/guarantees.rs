//! What a topic guarantees to its publisher and its subscribers, proved of
//! the topic's mathematical state. The operations of `Topic` move the state
//! exactly as the functions of `TopicState` say, so every statement here
//! holds of the executable topic too.

use crate::connection::{ConnectionState, Phase, Step};
use crate::topic::{Delivery, TopicState};
use vstd::prelude::*;

verus! {

/// One thing that happens to a topic.
pub enum Event<T> {
    /// The publisher publishes a value.
    Publish(T),
    /// Someone asks to subscribe.
    Subscribe,
    /// The subscriber with this key asks for the next value.
    Receive(nat),
    /// The subscription with this key is released.
    Release(nat),
    /// The topic is closed.
    Close,
}

impl<T> TopicState<T> {
    /// The state after `event`.
    pub open spec fn after(self, event: Event<T>) -> Self {
        match event {
            Event::Publish(value) => self.publish(value),
            Event::Subscribe => self.subscribe(),
            Event::Receive(id) => self.receive(id),
            Event::Release(id) => self.unsubscribe(id),
            Event::Close => self.close(),
        }
    }

    /// The state after all of `events`, in order.
    pub open spec fn run(self, events: Seq<Event<T>>) -> Self
        decreases events.len(),
    {
        if events.len() == 0 {
            self
        } else {
            self.run(events.drop_last()).after(events.last())
        }
    }

    /// The state after each of `values` was published, in order, with
    /// nothing else happening in between.
    pub open spec fn publish_all(self, values: Seq<T>) -> Self
        decreases values.len(),
    {
        if values.len() == 0 {
            self
        } else {
            self.publish_all(values.drop_last()).publish(values.last())
        }
    }

    /// The state after a subscriber kept pace with the publisher: each of
    /// `values` was published and then received by `id` before the next.
    pub open spec fn keep_pace(self, id: nat, values: Seq<T>) -> Self
        decreases values.len(),
    {
        if values.len() == 0 {
            self
        } else {
            self.keep_pace(id, values.drop_last()).publish(values.last()).receive(id)
        }
    }

    /// What the subscriber `id` was given, turn by turn, while it kept pace
    /// with the publisher of `values`.
    pub open spec fn paced_deliveries(self, id: nat, values: Seq<T>) -> Seq<Delivery<T>>
        decreases values.len(),
    {
        if values.len() == 0 {
            Seq::empty()
        } else {
            let earlier = values.drop_last();
            self.paced_deliveries(id, earlier).push(
                self.keep_pace(id, earlier).publish(values.last()).delivery(id),
            )
        }
    }
}

/// A new topic is well-formed.
pub proof fn lemma_initial_wf<T>()
    ensures
        TopicState::<T>::initial().wf(),
{
    assert(TopicState::<T>::initial().unread.dom() =~= Set::<nat>::empty());
}

/// Whatever happens to a well-formed topic leaves it well-formed.
pub proof fn lemma_step_keeps_wf<T>(state: TopicState<T>, event: Event<T>)
    requires
        state.wf(),
    ensures
        state.after(event).wf(),
{
    match event {
        Event::Publish(value) => {
            assert(state.publish(value).unread.dom() =~= state.unread.dom());
        },
        Event::Subscribe => {},
        Event::Receive(id) => {
            if state.subscribed(id) {
                assert(state.receive(id).unread.dom() =~= state.unread.dom());
            }
        },
        Event::Release(id) => {},
        Event::Close => {
            assert(state.close().unread.dom() =~= Set::<nat>::empty());
        },
    }
}

/// Publishing keeps one value only: after any number of publishes the topic
/// is in the state that the last of them alone would have left. Nothing of
/// the earlier values stays behind, whether or not anyone was subscribed,
/// and a topic without subscribers is still without subscribers.
pub proof fn lemma_only_last_publish_stays<T>(state: TopicState<T>, values: Seq<T>)
    requires
        values.len() > 0,
    ensures
        state.publish_all(values) == state.publish(values.last()),
        state.publish_all(values).latest == Some(values.last()),
        state.publish_all(values).unread.dom() == state.unread.dom(),
    decreases values.len(),
{
    assert(state.publish(values.last()).unread.dom() =~= state.unread.dom());
    let earlier = values.drop_last();
    if earlier.len() == 0 {
        assert(state.publish_all(earlier) == state);
    } else {
        lemma_only_last_publish_stays(state, earlier);
        let once = state.publish(earlier.last());
        assert(once.publish(values.last()).unread =~= state.publish(values.last()).unread);
    }
}

/// A subscriber that asks once, after all of `values` were published, is
/// given the last of them, and none of the earlier ones.
pub proof fn lemma_late_receiver_gets_last<T>(state: TopicState<T>, id: nat, values: Seq<T>)
    requires
        state.subscribed(id),
        values.len() > 0,
    ensures
        state.publish_all(values).delivery(id) == Delivery::Value(values.last()),
{
    lemma_only_last_publish_stays(state, values);
}

/// A subscriber that asks once after each publish is given every value, in
/// the order in which they were published.
pub proof fn lemma_paced_receiver_gets_all<T>(state: TopicState<T>, id: nat, values: Seq<T>)
    requires
        state.subscribed(id),
    ensures
        state.keep_pace(id, values).subscribed(id),
        state.paced_deliveries(id, values).len() == values.len(),
        forall|i: int|
            0 <= i < values.len() ==> #[trigger] state.paced_deliveries(id, values)[i]
                == Delivery::Value(values[i]),
    decreases values.len(),
{
    if values.len() > 0 {
        lemma_paced_receiver_gets_all(state, id, values.drop_last());
    }
}

/// Subscribing replays nothing: the new subscriber has nothing to receive
/// until the next publish, and then it is given that value.
pub proof fn lemma_subscriber_starts_at_next_publish<T>(state: TopicState<T>, value: T)
    requires
        state.wf(),
        state.can_subscribe(),
    ensures
        !state.subscribed(state.issued),
        state.subscribe().delivery(state.issued) == Delivery::<T>::Pending,
        state.subscribe().publish(value).delivery(state.issued) == Delivery::Value(value),
{
}

/// A value is delivered to a subscriber once: having received, it finds
/// nothing more until the next publish.
pub proof fn lemma_no_value_twice<T>(state: TopicState<T>, id: nat)
    requires
        state.subscribed(id),
    ensures
        state.receive(id).delivery(id) == Delivery::<T>::Pending,
{
}

/// Subscribers do not touch each other: what `other` finds is the same
/// whether or not `id` has received, released its subscription, or just
/// joined.
pub proof fn lemma_subscribers_are_independent<T>(state: TopicState<T>, id: nat, other: nat)
    requires
        state.wf(),
        id != other,
        state.subscribed(other),
    ensures
        state.receive(id).delivery(other) == state.delivery(other),
        state.unsubscribe(id).delivery(other) == state.delivery(other),
        state.subscribe().delivery(other) == state.delivery(other),
{
}

/// Releasing a subscription and publishing do not get in each other's way:
/// in either order they leave the same state.
pub proof fn lemma_release_commutes_with_publish<T>(state: TopicState<T>, id: nat, value: T)
    ensures
        state.unsubscribe(id).publish(value) == state.publish(value).unsubscribe(id),
{
    assert(state.unsubscribe(id).publish(value).unread =~= state.publish(value).unsubscribe(
        id,
    ).unread);
}

/// After a topic was closed every subscriber finds `Closed`, and nobody can
/// subscribe.
pub proof fn lemma_closed_topic_has_no_subscribers<T>(state: TopicState<T>, id: nat)
    ensures
        state.close().delivery(id) == Delivery::<T>::Closed,
        !state.close().can_subscribe(),
        state.close().subscribe() == state.close(),
        state.close().latest == state.latest,
{
}

/// Whether nothing is published by the events from place `from` up to, and
/// not including, place `to`.
pub open spec fn quiet<T>(events: Seq<Event<T>>, from: int, to: int) -> bool {
    forall|p: int| from <= p < to ==> !(#[trigger] events[p] is Publish)
}

/// The place of the last publish among the first `k` events, or -1 if
/// there is none.
pub open spec fn last_publish<T>(events: Seq<Event<T>>, k: int) -> int
    decreases k,
{
    if k <= 0 {
        -1
    } else if events[k - 1] is Publish {
        k - 1
    } else {
        last_publish(events, k - 1)
    }
}

/// `last_publish` is the place of a publish, and no publish comes after it.
pub proof fn lemma_last_publish<T>(events: Seq<Event<T>>, k: int)
    requires
        0 <= k <= events.len(),
    ensures
        -1 <= last_publish(events, k) < k,
        last_publish(events, k) >= 0 ==> events[last_publish(events, k)] is Publish,
        quiet(events, last_publish(events, k) + 1, k),
    decreases k,
{
    if k > 0 && !(events[k - 1] is Publish) {
        lemma_last_publish(events, k - 1);
    }
}

/// One more event, one more step: the state after the first `k` events is
/// the state after the first `k - 1`, moved by the event at place `k - 1`.
proof fn lemma_run_unfolds<T>(state: TopicState<T>, events: Seq<Event<T>>, k: int)
    requires
        0 < k <= events.len(),
    ensures
        state.run(events.take(k)) == state.run(events.take(k - 1)).after(events[k - 1]),
{
    assert(events.take(k).drop_last() =~= events.take(k - 1));
}

/// The slot holds what was published last: after a publish, and for as long
/// as nothing else is published, the slot holds that value.
pub proof fn lemma_slot_holds_last_publish<T>(
    state: TopicState<T>,
    events: Seq<Event<T>>,
    p: int,
    k: int,
)
    requires
        0 <= p < k <= events.len(),
        events[p] is Publish,
        quiet(events, p + 1, k),
    ensures
        state.run(events.take(k)).latest == Some(events[p]->Publish_0),
    decreases k,
{
    lemma_run_unfolds(state, events, k);
    if k > p + 1 {
        lemma_slot_holds_last_publish(state, events, p, k - 1);
    }
}

/// No delivery without a publish: a subscriber that has nothing to receive
/// after the first `j` events has nothing to receive later either, unless a
/// value was published in between.
pub proof fn lemma_nothing_new_without_publish<T>(
    state: TopicState<T>,
    events: Seq<Event<T>>,
    id: nat,
    j: int,
    k: int,
)
    requires
        0 <= j <= k <= events.len(),
        !(state.run(events.take(j)).delivery(id) is Value),
        quiet(events, j, k),
    ensures
        !(state.run(events.take(k)).delivery(id) is Value),
    decreases k,
{
    if k > j {
        lemma_nothing_new_without_publish(state, events, id, j, k - 1);
        lemma_run_unfolds(state, events, k);
    }
}

/// Values reach a subscriber in the order of their publication, each at
/// most once, and possibly with gaps. If the subscriber `id` asks at place
/// `j` and again at place `k`, and is given a value the second time, then a
/// value was published between the two, and what it is given is the value
/// of the last publish before `k`: not the one that it was given at `j`,
/// nor any older one.
pub proof fn lemma_deliveries_follow_publishes<T>(
    state: TopicState<T>,
    events: Seq<Event<T>>,
    id: nat,
    j: int,
    k: int,
)
    requires
        0 <= j < k <= events.len(),
        events[j] == Event::<T>::Receive(id),
        state.run(events.take(k)).delivery(id) is Value,
    ensures
        j < last_publish(events, k) < k,
        events[last_publish(events, k)] is Publish,
        state.run(events.take(k)).delivery(id) == Delivery::Value(
            events[last_publish(events, k)]->Publish_0,
        ),
{
    let p = last_publish(events, k);
    lemma_last_publish(events, k);
    lemma_run_unfolds(state, events, j + 1);
    if p <= j {
        lemma_nothing_new_without_publish(state, events, id, j + 1, k);
    }
    lemma_slot_holds_last_publish(state, events, p, k);
}

/// A new subscriber's first value is one that was published after it
/// subscribed: if the request at place `j` is granted, and the new
/// subscriber is given a value when it asks at place `k`, that value is the
/// one of the last publish before `k`, and that publish came after `j`.
pub proof fn lemma_first_delivery_follows_subscription<T>(
    state: TopicState<T>,
    events: Seq<Event<T>>,
    j: int,
    k: int,
)
    requires
        0 <= j < k <= events.len(),
        events[j] is Subscribe,
        state.run(events.take(j)).can_subscribe(),
        state.run(events.take(k)).delivery(state.run(events.take(j)).issued) is Value,
    ensures
        j < last_publish(events, k) < k,
        events[last_publish(events, k)] is Publish,
        state.run(events.take(k)).delivery(state.run(events.take(j)).issued) == Delivery::Value(
            events[last_publish(events, k)]->Publish_0,
        ),
{
    let id = state.run(events.take(j)).issued;
    let p = last_publish(events, k);
    lemma_last_publish(events, k);
    lemma_run_unfolds(state, events, j + 1);
    if p <= j {
        lemma_nothing_new_without_publish(state, events, id, j + 1, k);
    }
    lemma_slot_holds_last_publish(state, events, p, k);
}

/// Every state that a well-formed topic passes through is well-formed.
pub proof fn lemma_run_keeps_wf<T>(state: TopicState<T>, events: Seq<Event<T>>)
    requires
        state.wf(),
    ensures
        state.run(events).wf(),
    decreases events.len(),
{
    if events.len() > 0 {
        lemma_run_keeps_wf(state, events.drop_last());
        lemma_step_keeps_wf(state.run(events.drop_last()), events.last());
    }
}

/// Whether the events from place `from` up to, and not including, place
/// `to` leave the subscriber `id` alone: it does not ask, its subscription
/// is not released, and the topic is not closed.
pub open spec fn undisturbed<T>(events: Seq<Event<T>>, id: nat, from: int, to: int) -> bool {
    forall|r: int|
        from <= r < to ==> (#[trigger] events[r]) != Event::<T>::Receive(id) && events[r]
            != Event::<T>::Release(id) && !(events[r] is Close)
}

/// The newest value waits for a slow subscriber. Whatever else happens to
/// the topic and to the other subscribers in the meantime, a subscriber
/// that was there at the last publish and has not asked since is given the
/// value of that publish when it asks.
pub proof fn lemma_last_value_waits<T>(
    state: TopicState<T>,
    events: Seq<Event<T>>,
    id: nat,
    p: int,
    k: int,
)
    requires
        state.wf(),
        0 <= p < k <= events.len(),
        events[p] is Publish,
        state.run(events.take(p)).subscribed(id),
        quiet(events, p + 1, k),
        undisturbed(events, id, p + 1, k),
    ensures
        state.run(events.take(k)).delivery(id) == Delivery::Value(events[p]->Publish_0),
    decreases k,
{
    lemma_run_unfolds(state, events, k);
    lemma_run_keeps_wf(state, events.take(k - 1));
    if k > p + 1 {
        lemma_last_value_waits(state, events, id, p, k - 1);
    }
}

/// How far a connection has come: the phases in the order in which a
/// connection passes through them.
pub open spec fn progress(phase: Phase) -> nat {
    match phase {
        Phase::Connecting => 0,
        Phase::Streaming => 1,
        Phase::Closed => 2,
    }
}

/// A connection never goes back to an earlier phase, and it holds a
/// subscription exactly while it streams, whatever happens to it.
pub proof fn lemma_connection_only_advances<T>(
    connection: ConnectionState,
    topic: TopicState<T>,
    flag: bool,
)
    requires
        connection.wf(),
    ensures
        progress(connection.on_upgrade(topic, flag).0.phase) >= progress(connection.phase),
        progress(connection.next(topic).0.phase) >= progress(connection.phase),
        progress(connection.on_sent(topic, flag).0.phase) >= progress(connection.phase),
        progress(connection.on_client_close(topic).0.phase) >= progress(connection.phase),
        connection.on_upgrade(topic, flag).0.wf(),
        connection.next(topic).0.wf(),
        connection.on_sent(topic, flag).0.wf(),
        connection.on_client_close(topic).0.wf(),
{
}

/// Nothing brings a closed connection back: it stays closed, it is told to
/// stop, and it leaves the topic alone.
pub proof fn lemma_closed_connection_stays_closed<T>(
    connection: ConnectionState,
    topic: TopicState<T>,
    flag: bool,
)
    requires
        connection.wf(),
        connection.phase is Closed,
    ensures
        connection.on_upgrade(topic, flag) == (connection, topic),
        connection.next(topic) == (connection, topic, Step::<T>::Stop),
        connection.on_sent(topic, flag) == (connection, topic),
        connection.on_client_close(topic) == (connection, topic),
{
}

/// An upgrade that fails creates nothing: the connection is closed and the
/// topic is as it was.
pub proof fn lemma_failed_upgrade_leaves_topic<T>(connection: ConnectionState, topic: TopicState<T>)
    requires
        connection.phase is Connecting,
    ensures
        connection.on_upgrade(topic, false) == (ConnectionState::closed(), topic),
{
}

/// A send that fails ends that connection and no other: its subscription
/// is released, the send is not tried again, and any other subscriber finds
/// at the topic what it would have found anyway.
pub proof fn lemma_failed_send_ends_one_connection<T>(
    connection: ConnectionState,
    topic: TopicState<T>,
    other: nat,
)
    requires
        connection.wf(),
        connection.phase is Streaming,
        other != connection.key->0,
    ensures
        connection.on_sent(topic, false).0 == ConnectionState::closed(),
        !connection.on_sent(topic, false).1.subscribed(connection.key->0),
        connection.on_sent(topic, false).1.delivery(other) == topic.delivery(other),
        connection.on_sent(topic, false).1.latest == topic.latest,
        connection.on_sent(topic, false).0.next(connection.on_sent(topic, false).1).2
            == Step::<T>::Stop,
{
}

/// A streaming connection forwards what the topic delivers to it: a value
/// to send if there is a new one, and a wait if there is none.
pub proof fn lemma_streaming_connection_forwards<T>(connection: ConnectionState, topic: TopicState<T>)
    requires
        connection.wf(),
        connection.phase is Streaming,
    ensures
        match topic.delivery(connection.key->0) {
            Delivery::Value(value) => connection.next(topic).2 == Step::Send(value),
            Delivery::Pending => connection.next(topic).2 == Step::<T>::Wait,
            Delivery::Closed => connection.next(topic).2 == Step::<T>::Stop,
        },
        topic.subscribed(connection.key->0) ==> connection.next(topic).0 == connection,
{
}

} // verus!
