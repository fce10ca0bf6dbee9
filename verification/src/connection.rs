//! The life of one streaming connection.
//!
//! A connection starts out `Connecting`. When the client's upgrade has
//! succeeded it subscribes to a topic and is `Streaming`: it takes each new
//! value from the topic and has it sent to the client. It is `Closed` when a
//! send fails, when the topic lets it go, or when the client leaves; it then
//! holds no subscription, and nothing brings it back.
//!
//! The handler decides; it does not wait or send. Its caller does what each
//! `Step` says and reports what came of it.

use crate::topic::{Delivery, Subscription, Topic, TopicState};
use std::sync::Arc;
use vstd::prelude::*;

verus! {

/// Where a connection stands.
#[derive(Clone, Copy, Debug, PartialEq, Eq, Structural)]
pub enum Phase {
    /// The client has not been upgraded to a streaming connection yet.
    Connecting,
    /// The connection is subscribed and forwards values.
    Streaming,
    /// The connection is over.
    Closed,
}

/// What the task that serves a connection does next.
#[derive(Debug, PartialEq, Eq)]
pub enum Step<V> {
    /// Serialise this value, send it to the client, and report the outcome.
    Send(V),
    /// There is nothing to send: ask again after the next publish.
    Wait,
    /// The connection is closed: stop.
    Stop,
}

impl<T> Step<Arc<T>> {
    /// The same step, with the value itself in place of the shared pointer
    /// to it.
    pub open spec fn content(self) -> Step<T> {
        match self {
            Step::Send(shared) => Step::Send(*shared),
            Step::Wait => Step::Wait,
            Step::Stop => Step::Stop,
        }
    }
}

/// The mathematical state of a connection: its phase, and the key of its
/// subscription while it has one.
pub struct ConnectionState {
    pub phase: Phase,
    pub key: Option<nat>,
}

impl ConnectionState {
    /// A connection that has just come in.
    pub open spec fn initial() -> Self {
        ConnectionState { phase: Phase::Connecting, key: None }
    }

    /// A connection that is over.
    pub open spec fn closed() -> Self {
        ConnectionState { phase: Phase::Closed, key: None }
    }

    /// What holds of every connection: it has a subscription exactly while
    /// it is streaming.
    pub open spec fn wf(self) -> bool {
        self.phase is Streaming <==> self.key is Some
    }

    /// The connection and the topic after the outcome of the upgrade is
    /// known. A connecting client whose upgrade succeeded is subscribed and
    /// streams, if the topic grants a subscription; otherwise the
    /// connection is closed and the topic was not touched.
    pub open spec fn on_upgrade<T>(self, topic: TopicState<T>, upgraded: bool) -> (
        Self,
        TopicState<T>,
    ) {
        if !(self.phase is Connecting) {
            (self, topic)
        } else if upgraded && topic.can_subscribe() {
            (
                ConnectionState { phase: Phase::Streaming, key: Some(topic.issued) },
                topic.subscribe(),
            )
        } else {
            (Self::closed(), topic)
        }
    }

    /// The next step of a connection, with the connection and the topic
    /// after it was decided. A streaming connection takes its turn at the
    /// topic: a new value is to be sent, nothing new means waiting, and a
    /// subscription that the topic no longer holds closes the connection.
    pub open spec fn next<T>(self, topic: TopicState<T>) -> (Self, TopicState<T>, Step<T>) {
        match self.phase {
            Phase::Connecting => (self, topic, Step::Wait),
            Phase::Closed => (self, topic, Step::Stop),
            Phase::Streaming => match topic.delivery(self.key->0) {
                Delivery::Value(value) => (self, topic.receive(self.key->0), Step::Send(value)),
                Delivery::Pending => (self, topic.receive(self.key->0), Step::Wait),
                Delivery::Closed => (Self::closed(), topic, Step::Stop),
            },
        }
    }

    /// The connection and the topic after a send was reported. A send that
    /// failed ends a streaming connection and releases its subscription;
    /// it is not tried again.
    pub open spec fn on_sent<T>(self, topic: TopicState<T>, delivered: bool) -> (
        Self,
        TopicState<T>,
    ) {
        if self.phase is Streaming && !delivered {
            (Self::closed(), topic.unsubscribe(self.key->0))
        } else {
            (self, topic)
        }
    }

    /// The connection and the topic after the client left. The connection
    /// is closed, and a subscription that it held is released.
    pub open spec fn on_client_close<T>(self, topic: TopicState<T>) -> (Self, TopicState<T>) {
        if self.phase is Streaming {
            (Self::closed(), topic.unsubscribe(self.key->0))
        } else {
            (Self::closed(), topic)
        }
    }
}

/// The handler of one connection. It owns the connection's subscription.
#[derive(Debug)]
pub struct ConnectionHandler {
    phase: Phase,
    subscription: Option<Subscription>,
}

impl View for ConnectionHandler {
    type V = ConnectionState;

    closed spec fn view(&self) -> ConnectionState {
        ConnectionState {
            phase: self.phase,
            key: match self.subscription {
                Some(held) => Some(held.key()),
                None => None,
            },
        }
    }
}

impl ConnectionHandler {
    #[verifier::type_invariant]
    spec fn inv(self) -> bool {
        self.phase is Streaming <==> self.subscription is Some
    }

    /// The handler of a connection that has just come in.
    pub fn new() -> (handler: Self)
        ensures
            handler@ == ConnectionState::initial(),
    {
        ConnectionHandler { phase: Phase::Connecting, subscription: None }
    }

    /// Where the connection stands.
    pub fn phase(&self) -> (phase: Phase)
        ensures
            phase == self@.phase,
            self@.wf(),
    {
        proof {
            use_type_invariant(self);
        }
        self.phase
    }

    /// Takes note of how the client's upgrade went, and subscribes to the
    /// topic if it went well.
    pub fn on_upgrade<T>(&mut self, topic: &mut Topic<T>, upgraded: bool)
        ensures
            (final(self)@, final(topic)@) == old(self)@.on_upgrade(old(topic)@, upgraded),
            final(self)@.wf(),
    {
        proof {
            use_type_invariant(&*self);
        }
        match self.phase {
            Phase::Connecting => {
                if upgraded {
                    match topic.subscribe() {
                        Some(granted) => {
                            *self = ConnectionHandler {
                                phase: Phase::Streaming,
                                subscription: Some(granted),
                            };
                        },
                        None => {
                            self.phase = Phase::Closed;
                        },
                    }
                } else {
                    self.phase = Phase::Closed;
                }
            },
            _ => {},
        }
    }

    /// Decides the connection's next step. A streaming connection takes
    /// its turn at the topic.
    pub fn next<T>(&mut self, topic: &mut Topic<T>) -> (step: Step<Arc<T>>)
        ensures
            (final(self)@, final(topic)@, step.content()) == old(self)@.next(old(topic)@),
            final(self)@.wf(),
    {
        proof {
            use_type_invariant(&*self);
        }
        match &self.subscription {
            None => match self.phase {
                Phase::Closed => Step::Stop,
                _ => Step::Wait,
            },
            Some(held) => match topic.receive(held) {
                Delivery::Value(value) => Step::Send(value),
                Delivery::Pending => Step::Wait,
                Delivery::Closed => {
                    *self = ConnectionHandler { phase: Phase::Closed, subscription: None };
                    Step::Stop
                },
            },
        }
    }

    /// Takes note of how a send went. A failed send is final: the
    /// connection is closed and its subscription released.
    pub fn on_sent<T>(&mut self, topic: &mut Topic<T>, delivered: bool)
        ensures
            (final(self)@, final(topic)@) == old(self)@.on_sent(old(topic)@, delivered),
            final(self)@.wf(),
    {
        proof {
            use_type_invariant(&*self);
        }
        if !delivered {
            self.release(topic);
        }
    }

    /// Takes note that the client closed the connection.
    pub fn on_client_close<T>(&mut self, topic: &mut Topic<T>)
        ensures
            (final(self)@, final(topic)@) == old(self)@.on_client_close(old(topic)@),
            final(self)@.wf(),
    {
        proof {
            use_type_invariant(&*self);
        }
        self.release(topic);
        self.phase = Phase::Closed;
    }

    /// Ends a streaming connection and hands its subscription back to the
    /// topic; leaves any other connection as it is.
    fn release<T>(&mut self, topic: &mut Topic<T>)
        ensures
            final(self)@ == (if old(self)@.phase is Streaming {
                ConnectionState::closed()
            } else {
                old(self)@
            }),
            final(topic)@ == (if old(self)@.phase is Streaming {
                old(topic)@.unsubscribe(old(self)@.key->0)
            } else {
                old(topic)@
            }),
    {
        proof {
            use_type_invariant(&*self);
        }
        let mut previous = ConnectionHandler { phase: Phase::Closed, subscription: None };
        std::mem::swap(self, &mut previous);
        match previous.subscription {
            Some(held) => {
                topic.unsubscribe(held);
            },
            None => {
                self.phase = previous.phase;
            },
        }
    }
}

} // verus!
