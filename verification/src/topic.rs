//! A single-slot broadcast topic.
//!
//! A topic keeps the most recent value that was published to it and a
//! registry of its subscribers. Each subscriber is told of a value at most
//! once; a subscriber that falls behind finds only the newest value. The
//! topic is plain sequential data: whoever shares it between a publisher and
//! its subscribers guards it with a lock and wakes the waiting subscribers
//! after each publish.

use std::sync::Arc;
use vstd::prelude::*;

verus! {

/// What a subscriber finds when it asks a topic for the next value.
#[derive(Debug, PartialEq, Eq)]
pub enum Delivery<V> {
    /// A value that the subscriber has not been given before.
    Value(V),
    /// Nothing new has been published: wait for the next publish.
    Pending,
    /// The subscription is not registered with the topic (any more).
    Closed,
}

impl<T> Delivery<Arc<T>> {
    /// The same delivery, with the value itself in place of the shared
    /// pointer to it.
    pub open spec fn content(self) -> Delivery<T> {
        match self {
            Delivery::Value(shared) => Delivery::Value(*shared),
            Delivery::Pending => Delivery::Pending,
            Delivery::Closed => Delivery::Closed,
        }
    }
}

/// The mathematical state of a topic.
pub struct TopicState<T> {
    /// The slot: the value of the last publish, if there was one.
    pub latest: Option<T>,
    /// The registry: each active subscriber, by its key, and whether the slot
    /// holds a value that it has not yet received.
    pub unread: Map<nat, bool>,
    /// How many subscriptions were handed out so far; the next key.
    pub issued: nat,
    /// Whether the topic still takes subscribers.
    pub open: bool,
}

impl<T> TopicState<T> {
    /// The state of a topic that was just created.
    pub open spec fn initial() -> Self {
        TopicState { latest: None, unread: Map::empty(), issued: 0, open: true }
    }

    /// What holds of every state that a topic can be in.
    pub open spec fn wf(self) -> bool {
        &&& self.issued <= u64::MAX
        &&& self.unread.dom().finite()
        &&& forall|id: nat| #[trigger] self.unread.dom().contains(id) ==> id < self.issued
        &&& forall|id: nat|
            self.unread.dom().contains(id) && #[trigger] self.unread[id] ==> self.latest is Some
        &&& !self.open ==> self.unread.dom() =~= Set::empty()
    }

    /// Whether `id` is the key of an active subscriber.
    pub open spec fn subscribed(self, id: nat) -> bool {
        self.unread.dom().contains(id)
    }

    /// The state after `value` was published: it fills the slot, and every
    /// subscriber has it to receive.
    pub open spec fn publish(self, value: T) -> Self {
        TopicState {
            latest: Some(value),
            unread: Map::new(|id: nat| self.unread.dom().contains(id), |id: nat| true),
            ..self
        }
    }

    /// Whether a request to subscribe is granted: the topic is open and has
    /// a key left to give.
    pub open spec fn can_subscribe(self) -> bool {
        self.open && self.issued < u64::MAX
    }

    /// The state after a request to subscribe. The new subscriber gets the
    /// key `self.issued` and has nothing to receive: the value in the slot
    /// is not replayed to it.
    pub open spec fn subscribe(self) -> Self {
        if self.can_subscribe() {
            TopicState {
                unread: self.unread.insert(self.issued, false),
                issued: self.issued + 1,
                ..self
            }
        } else {
            self
        }
    }

    /// What the subscriber `id` finds when it asks for the next value.
    pub open spec fn delivery(self, id: nat) -> Delivery<T> {
        if !self.subscribed(id) {
            Delivery::Closed
        } else if self.unread[id] && self.latest is Some {
            Delivery::Value(self.latest->0)
        } else {
            Delivery::Pending
        }
    }

    /// The state after the subscriber `id` asked for the next value: it has
    /// now seen what the slot holds.
    pub open spec fn receive(self, id: nat) -> Self {
        if self.subscribed(id) {
            TopicState { unread: self.unread.insert(id, false), ..self }
        } else {
            self
        }
    }

    /// The state after the subscription `id` was released.
    pub open spec fn unsubscribe(self, id: nat) -> Self {
        TopicState { unread: self.unread.remove(id), ..self }
    }

    /// The state after the topic was closed: every subscription is released
    /// and no new one is granted. The slot keeps its value.
    pub open spec fn close(self) -> Self {
        TopicState { unread: Map::empty(), open: false, ..self }
    }
}

/// A subscriber's handle on one topic. It is not copied: whoever holds it is
/// the subscriber.
#[derive(Debug)]
pub struct Subscription {
    id: u64,
}

impl Subscription {
    /// The key under which the topic's registry knows this subscriber.
    pub closed spec fn key(&self) -> nat {
        self.id as nat
    }

    /// The key as a number.
    pub fn id(&self) -> (id: u64)
        ensures
            id == self.key(),
    {
        self.id
    }
}

/// One subscriber in the registry.
struct Entry {
    id: u64,
    unread: bool,
}

/// Whether no two of the entries have the same key.
spec fn distinct(entries: Seq<Entry>) -> bool {
    forall|i: int, j: int|
        0 <= i < j < entries.len() ==> (#[trigger] entries[i]).id != (#[trigger] entries[j]).id
}

/// Whether `i` is the place of the entry with the key `id`.
spec fn at(entries: Seq<Entry>, id: nat, i: int) -> bool {
    0 <= i < entries.len() && entries[i].id == id
}

/// The registry that a list of entries with distinct keys stands for.
spec fn registry(entries: Seq<Entry>) -> Map<nat, bool> {
    Map::new(
        |id: nat| exists|i: int| at(entries, id, i),
        |id: nat| entries[choose|i: int| at(entries, id, i)].unread,
    )
}

/// The entry at place `i` is in the registry, under its key and with its flag.
proof fn lemma_registry_entry(entries: Seq<Entry>, i: int)
    requires
        distinct(entries),
        0 <= i < entries.len(),
    ensures
        registry(entries).dom().contains(entries[i].id as nat),
        registry(entries)[entries[i].id as nat] == entries[i].unread,
{
    let id = entries[i].id as nat;
    assert(at(entries, id, i));
    let k = choose|k: int| at(entries, id, k);
    assert(k == i);
}

/// A map that holds each entry under its key, and nothing else, is the
/// registry of the entries.
proof fn lemma_registry_is(entries: Seq<Entry>, expected: Map<nat, bool>)
    requires
        distinct(entries),
        forall|i: int|
            0 <= i < entries.len() ==> expected.dom().contains((#[trigger] entries[i]).id as nat)
                && expected[entries[i].id as nat] == entries[i].unread,
        forall|id: nat| #[trigger]
            expected.dom().contains(id) ==> exists|i: int| at(entries, id, i),
    ensures
        registry(entries) == expected,
{
    assert forall|id: nat| registry(entries).dom().contains(id) implies expected.dom().contains(
        id,
    ) && registry(entries)[id] == expected[id] by {
        let k = choose|k: int| at(entries, id, k);
        assert(at(entries, id, k));
        lemma_registry_entry(entries, k);
        assert(entries[k].id as nat == id);
    }
    assert(registry(entries) =~= expected);
}

/// A registry has as many subscribers as it has entries.
proof fn lemma_registry_len(entries: Seq<Entry>)
    requires
        distinct(entries),
    ensures
        registry(entries).dom().finite(),
        registry(entries).dom().len() == entries.len(),
    decreases entries.len(),
{
    if entries.len() == 0 {
        assert(registry(entries).dom() =~= Set::empty());
    } else {
        let front = entries.drop_last();
        let last = entries.last();
        lemma_registry_len(front);
        assert(!registry(front).dom().contains(last.id as nat)) by {
            if registry(front).dom().contains(last.id as nat) {
                let k = choose|k: int| at(front, last.id as nat, k);
                assert(entries[k].id == entries[entries.len() - 1].id);
            }
        }
        assert forall|id: nat|
            registry(entries).dom().contains(id) <==> registry(front).dom().insert(
                last.id as nat,
            ).contains(id) by {
            if registry(entries).dom().contains(id) {
                let k = choose|k: int| at(entries, id, k);
                if k < front.len() {
                    assert(at(front, id, k));
                }
            }
            if registry(front).dom().contains(id) {
                let k = choose|k: int| at(front, id, k);
                assert(at(entries, id, k));
            }
            if id == last.id as nat {
                assert(at(entries, id, entries.len() - 1));
            }
        }
        assert(registry(entries).dom() =~= registry(front).dom().insert(last.id as nat));
    }
}

/// Another pointer to the value that `value` points to.
///
/// Calls `Arc::clone` of the standard library, which returns a pointer to
/// the same allocation: both point to one value.
#[verifier::external_body]
fn share<T>(value: &Arc<T>) -> (shared: Arc<T>)
    ensures
        shared == *value,
{
    Arc::clone(value)
}

/// A single-slot broadcast topic for values of type `T`.
pub struct Topic<T> {
    slot: Option<Arc<T>>,
    entries: Vec<Entry>,
    issued: u64,
    open: bool,
}

impl<T> View for Topic<T> {
    type V = TopicState<T>;

    closed spec fn view(&self) -> TopicState<T> {
        TopicState {
            latest: match self.slot {
                Some(value) => Some(*value),
                None => None,
            },
            unread: registry(self.entries@),
            issued: self.issued as nat,
            open: self.open,
        }
    }
}

impl<T> Topic<T> {
    #[verifier::type_invariant]
    spec fn inv(self) -> bool {
        &&& forall|i: int|
            0 <= i < self.entries@.len() ==> (#[trigger] self.entries@[i]).id < self.issued
        &&& distinct(self.entries@)
        &&& forall|i: int|
            0 <= i < self.entries@.len() && (#[trigger] self.entries@[i]).unread
                ==> self.slot is Some
        &&& !self.open ==> self.entries@.len() == 0
    }

    /// The state of a topic that keeps its invariant is well-formed.
    proof fn lemma_inv_wf(self)
        requires
            self.inv(),
        ensures
            self@.wf(),
    {
        let entries = self.entries@;
        lemma_registry_len(entries);
        assert forall|id: nat| #[trigger] self@.unread.dom().contains(id) implies id < self.issued
            && (self@.unread[id] ==> self@.latest is Some) by {
            let k = choose|k: int| at(entries, id, k);
            assert(at(entries, id, k));
            lemma_registry_entry(entries, k);
        }
        if !self.open {
            assert(self@.unread.dom() =~= Set::empty());
        }
    }

    /// The place of the entry with the key `id`, if there is one.
    fn position(&self, id: u64) -> (place: Option<usize>)
        ensures
            match place {
                Some(i) => at(self.entries@, id as nat, i as int),
                None => !registry(self.entries@).dom().contains(id as nat),
            },
    {
        let mut i: usize = 0;
        while i < self.entries.len()
            invariant
                0 <= i <= self.entries@.len(),
                forall|j: int| 0 <= j < i ==> (#[trigger] self.entries@[j]).id != id,
            decreases self.entries@.len() - i,
        {
            if self.entries[i].id == id {
                return Some(i);
            }
            i += 1;
        }
        proof {
            if registry(self.entries@).dom().contains(id as nat) {
                let k = choose|k: int| at(self.entries@, id as nat, k);
                assert(self.entries@[k].id == id);
            }
        }
        None
    }

    /// A new topic: open, with an empty slot and no subscribers.
    pub fn new() -> (topic: Self)
        ensures
            topic@ == TopicState::<T>::initial(),
    {
        let topic = Topic { slot: None, entries: Vec::new(), issued: 0, open: true };
        assert(topic@.unread =~= Map::empty());
        topic
    }

    /// Publishes `value`: it becomes the content of the slot, in place of
    /// what was there, and every subscriber has it to receive. This never
    /// fails and never waits, whatever the number of subscribers.
    pub fn publish(&mut self, value: T)
        ensures
            final(self)@ == old(self)@.publish(value),
            final(self)@.wf(),
    {
        proof {
            use_type_invariant(&*self);
        }
        self.slot = Some(Arc::new(value));
        let mut entries: Vec<Entry> = Vec::new();
        std::mem::swap(&mut entries, &mut self.entries);
        let mut i: usize = 0;
        while i < entries.len()
            invariant
                0 <= i <= entries@.len(),
                entries@.len() == old(self).entries@.len(),
                forall|j: int|
                    0 <= j < entries@.len() ==> (#[trigger] entries@[j]).id == old(
                        self,
                    ).entries@[j].id,
                forall|j: int| 0 <= j < i ==> (#[trigger] entries@[j]).unread,
            decreases entries@.len() - i,
        {
            entries[i].unread = true;
            i += 1;
        }
        self.entries = entries;
        proof {
            let before = old(self).entries@;
            let after = self.entries@;
            let expected = old(self)@.publish(value).unread;
            assert forall|id: nat| #[trigger] expected.dom().contains(id) implies exists|i: int|
                at(after, id, i) by {
                let k = choose|k: int| at(before, id, k);
                assert(at(after, id, k));
            }
            assert forall|i: int| 0 <= i < after.len() implies expected.dom().contains(
                (#[trigger] after[i]).id as nat,
            ) && expected[after[i].id as nat] == after[i].unread by {
                assert(at(before, after[i].id as nat, i));
            }
            lemma_registry_is(after, expected);
            self.lemma_inv_wf();
        }
    }

    /// Registers a new subscriber, which will find each value published
    /// from now on, and not the one that the slot holds at this moment.
    /// The request is refused when the topic is closed or has handed out
    /// its last key.
    pub fn subscribe(&mut self) -> (subscription: Option<Subscription>)
        ensures
            final(self)@ == old(self)@.subscribe(),
            final(self)@.wf(),
            match subscription {
                Some(handle) => old(self)@.can_subscribe() && handle.key() == old(self)@.issued,
                None => !old(self)@.can_subscribe(),
            },
    {
        proof {
            use_type_invariant(&*self);
            self.lemma_inv_wf();
        }
        if !self.open || self.issued == u64::MAX {
            return None;
        }
        let id = self.issued;
        self.issued = id + 1;
        let mut entries: Vec<Entry> = Vec::new();
        std::mem::swap(&mut entries, &mut self.entries);
        entries.push(Entry { id, unread: false });
        self.entries = entries;
        proof {
            let before = old(self).entries@;
            let after = self.entries@;
            let expected = old(self)@.subscribe().unread;
            assert forall|id: nat| #[trigger] expected.dom().contains(id) implies exists|i: int|
                at(after, id, i) by {
                if id == old(self).issued {
                    assert(at(after, id, after.len() - 1));
                } else {
                    let k = choose|k: int| at(before, id, k);
                    assert(at(after, id, k));
                }
            }
            assert forall|i: int| 0 <= i < after.len() implies expected.dom().contains(
                (#[trigger] after[i]).id as nat,
            ) && expected[after[i].id as nat] == after[i].unread by {
                if i < before.len() {
                    lemma_registry_entry(before, i);
                }
            }
            lemma_registry_is(after, expected);
            self.lemma_inv_wf();
        }
        Some(Subscription { id })
    }

    /// Gives the subscriber the value in the slot if it has not received
    /// it yet, and marks it as received. Values that were published and
    /// replaced since the subscriber last asked are gone: it gets the
    /// newest only. With nothing new the answer is `Pending`; for a
    /// subscription that the topic does not hold it is `Closed`.
    pub fn receive(&mut self, subscription: &Subscription) -> (delivery: Delivery<Arc<T>>)
        ensures
            delivery.content() == old(self)@.delivery(subscription.key()),
            final(self)@ == old(self)@.receive(subscription.key()),
            final(self)@.wf(),
    {
        proof {
            use_type_invariant(&*self);
            self.lemma_inv_wf();
        }
        let place = self.position(subscription.id);
        match place {
            None => Delivery::Closed,
            Some(i) => {
                proof {
                    lemma_registry_entry(self.entries@, i as int);
                }
                let fresh = self.entries[i].unread;
                let mut entries: Vec<Entry> = Vec::new();
                std::mem::swap(&mut entries, &mut self.entries);
                entries[i].unread = false;
                self.entries = entries;
                proof {
                    let before = old(self).entries@;
                    let after = self.entries@;
                    let expected = old(self)@.receive(subscription.key()).unread;
                    assert forall|id: nat| #[trigger] expected.dom().contains(id) implies exists|
                        k: int,
                    | at(after, id, k) by {
                        let k = choose|k: int| at(before, id, k);
                        assert(at(after, id, k));
                    }
                    assert forall|k: int| 0 <= k < after.len() implies expected.dom().contains(
                        (#[trigger] after[k]).id as nat,
                    ) && expected[after[k].id as nat] == after[k].unread by {
                        lemma_registry_entry(before, k);
                    }
                    lemma_registry_is(after, expected);
                    self.lemma_inv_wf();
                }
                if fresh {
                    match &self.slot {
                        Some(value) => Delivery::Value(share(value)),
                        None => Delivery::Pending,
                    }
                } else {
                    Delivery::Pending
                }
            },
        }
    }

    /// Releases a subscription. The other subscribers and the slot are
    /// left as they are; a subscription that the topic does not hold
    /// changes nothing.
    pub fn unsubscribe(&mut self, subscription: Subscription)
        ensures
            final(self)@ == old(self)@.unsubscribe(subscription.key()),
            final(self)@.wf(),
    {
        proof {
            use_type_invariant(&*self);
            self.lemma_inv_wf();
        }
        let place = self.position(subscription.id);
        match place {
            None => {
                assert(self@.unread =~= old(self)@.unsubscribe(subscription.key()).unread);
            },
            Some(i) => {
                let mut entries: Vec<Entry> = Vec::new();
                std::mem::swap(&mut entries, &mut self.entries);
                entries.swap_remove(i);
                self.entries = entries;
                proof {
                    let before = old(self).entries@;
                    let after = self.entries@;
                    let expected = old(self)@.unsubscribe(subscription.key()).unread;
                    assert forall|id: nat| #[trigger] expected.dom().contains(id) implies exists|
                        k: int,
                    | at(after, id, k) by {
                        let k = choose|k: int| at(before, id, k);
                        if k == before.len() - 1 {
                            assert(at(after, id, i as int));
                        } else {
                            assert(at(after, id, k));
                        }
                    }
                    assert forall|k: int| 0 <= k < after.len() implies expected.dom().contains(
                        (#[trigger] after[k]).id as nat,
                    ) && expected[after[k].id as nat] == after[k].unread by {
                        if k == i {
                            lemma_registry_entry(before, before.len() - 1);
                        } else {
                            lemma_registry_entry(before, k);
                        }
                    }
                    lemma_registry_is(after, expected);
                    self.lemma_inv_wf();
                }
            },
        }
    }

    /// Closes the topic: every subscription is released, so that each
    /// subscriber finds `Closed` when it next asks, and no new subscription
    /// is granted. The slot keeps its value.
    pub fn close(&mut self)
        ensures
            final(self)@ == old(self)@.close(),
            final(self)@.wf(),
    {
        proof {
            use_type_invariant(&*self);
        }
        self.entries = Vec::new();
        self.open = false;
        proof {
            assert(self@.unread =~= Map::empty());
            self.lemma_inv_wf();
        }
    }

    /// The value in the slot, for a reader that is no subscriber. Reading
    /// it changes nothing: no subscriber's turn is used up.
    pub fn latest(&self) -> (value: Option<Arc<T>>)
        ensures
            match value {
                Some(shared) => self@.latest == Some(*shared),
                None => self@.latest is None,
            },
    {
        match &self.slot {
            Some(value) => Some(share(value)),
            None => None,
        }
    }

    /// Whether the topic still takes subscribers.
    pub fn is_open(&self) -> (open: bool)
        ensures
            open == self@.open,
    {
        self.open
    }

    /// Whether the topic holds this subscription.
    pub fn is_subscribed(&self, subscription: &Subscription) -> (held: bool)
        ensures
            held == self@.subscribed(subscription.key()),
    {
        self.position(subscription.id).is_some()
    }

    /// The number of active subscribers.
    pub fn subscriber_count(&self) -> (count: usize)
        ensures
            self@.unread.dom().finite(),
            count == self@.unread.dom().len(),
    {
        proof {
            use_type_invariant(self);
            lemma_registry_len(self.entries@);
        }
        self.entries.len()
    }
}

} // verus!
