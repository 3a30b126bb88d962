//! Where a published reading goes.
//!
//! A sink takes a message or drops it, at once: the decision path never waits
//! on a broker.

use vstd::prelude::*;

verus! {

/// How hard a broker tries.
#[derive(Debug, Clone, Copy, PartialEq, Eq, Structural)]
pub enum QoS {
    AtMostOnce,
    AtLeastOnce,
}

/// How a message is delivered, as one role.
#[derive(Debug, Clone, Copy, PartialEq, Eq, Structural)]
pub enum Delivery {
    /// A reading that the next one supersedes.
    Telemetry,
    /// A Home Assistant discovery document.
    Discovery,
}

impl Delivery {
    pub fn qos(self) -> (out: QoS)
        ensures
            out == match self {
                Delivery::Telemetry => QoS::AtMostOnce,
                Delivery::Discovery => QoS::AtLeastOnce,
            },
    {
        match self {
            Delivery::Telemetry => QoS::AtMostOnce,
            Delivery::Discovery => QoS::AtLeastOnce,
        }
    }

    pub fn retain(self) -> (out: bool)
        ensures
            out == (self is Discovery),
    {
        match self {
            Delivery::Telemetry => false,
            Delivery::Discovery => true,
        }
    }
}

/// Something to publish.
#[derive(Debug, PartialEq, Eq)]
pub struct Message {
    pub topic: String,
    pub payload: String,
    pub delivery: Delivery,
}

/// A [`Message`] as a mathematical value.
pub struct Notice {
    pub topic: Seq<char>,
    pub payload: Seq<char>,
    pub delivery: Delivery,
}

impl View for Message {
    type V = Notice;

    open spec fn view(&self) -> Notice {
        Notice { topic: self.topic@, payload: self.payload@, delivery: self.delivery }
    }
}

pub open spec fn notices(messages: Seq<Message>) -> Seq<Notice> {
    messages.map_values(|m: Message| m@)
}

impl Message {
    pub fn telemetry(topic: String, payload: String) -> (out: Self)
        ensures
            out == (Message { topic, payload, delivery: Delivery::Telemetry }),
    {
        Message { topic, payload, delivery: Delivery::Telemetry }
    }

    pub fn discovery(topic: String, payload: String) -> (out: Self)
        ensures
            out == (Message { topic, payload, delivery: Delivery::Discovery }),
    {
        Message { topic, payload, delivery: Delivery::Discovery }
    }
}

impl Clone for Message {
    fn clone(&self) -> (out: Self)
        ensures
            out@ == self@,
    {
        Message {
            topic: self.topic.clone(),
            payload: self.payload.clone(),
            delivery: self.delivery,
        }
    }
}

/// Whether the sink took a message.
#[derive(Debug, Clone, Copy, PartialEq, Eq, Structural)]
pub enum Accepted {
    Queued,
    Dropped,
}

/// A message that was handed to a sink, and how the sink answered.
pub struct Sent {
    pub notice: Notice,
    pub answer: Accepted,
}

/// Messages that were handed to a sink one after the other, with its answers.
pub open spec fn exchange(notices: Seq<Notice>, answers: Seq<Accepted>) -> Seq<Sent> {
    Seq::new(notices.len(), |i: int| Sent { notice: notices[i], answer: answers[i] })
}

/// A sink for outgoing readings. What becomes of a message is the sink's own
/// affair, and no caller waits for it.
pub trait Publisher {
    /// Everything this sink was ever handed, oldest first, taken or not. A sink
    /// whose `publish` is proved says here how it keeps account of it.
    open spec fn log(&self) -> Seq<Sent> {
        Seq::empty()
    }

    /// Hands the sink one message, and gives back whether it took it.
    fn publish(&mut self, message: Message) -> (out: Accepted)
        ensures
            final(self).log() == old(self).log().push(Sent { notice: message@, answer: out }),
    ;
}

/// The sink of a run without a broker. It takes every message and does nothing
/// with it, so that nothing is ever offered to it twice.
pub struct NullPublisher {
    log: Ghost<Seq<Sent>>,
}

impl NullPublisher {
    pub fn new() -> (out: Self)
        ensures
            out.log() == Seq::<Sent>::empty(),
    {
        NullPublisher { log: Ghost(Seq::empty()) }
    }
}

impl Publisher for NullPublisher {
    closed spec fn log(&self) -> Seq<Sent> {
        self.log@
    }

    fn publish(&mut self, message: Message) -> (out: Accepted)
        ensures
            out == Accepted::Queued,
    {
        proof {
            let sent = Sent { notice: message@, answer: Accepted::Queued };
            self.log@ = self.log@.push(sent);
        }
        Accepted::Queued
    }
}

} // verus!
