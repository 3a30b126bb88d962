//! The connection to a broker: what to do on each event, and what to offer
//! after it.

use vstd::prelude::*;

use crate::text;
use crate::units::SolarPower;
use crate::world::MeterReading;

verus! {

/// A meter reading that is no longer the meter's own format.
#[derive(Debug, Clone, Copy, PartialEq, Eq)]
pub struct MeterObservation {
    pub grid: MeterReading,
    pub solar: SolarPower,
}

/// What the coordinator is fed.
#[derive(Debug, Clone, Copy)]
pub enum MqttEvent {
    Meter(MeterObservation),
}

/// What a connection reports.
#[derive(Debug)]
pub enum Incoming {
    /// The broker accepted the connection.
    Connected,
    /// A message arrived.
    Publish { topic: String },
    /// Anything else.
    Other,
    /// The connection failed.
    Failed,
}

/// What to do about it, in this order.
#[derive(Debug, Clone, Copy, PartialEq, Eq, Structural)]
pub struct Response {
    /// Forget what was announced: a broker that restarted may have too.
    pub reset: bool,
    /// Record the payload, and then read it as a meter reading.
    pub reading: bool,
    /// Wait, and offer nothing to a broker that is not there.
    pub back_off: bool,
    /// Offer the subscription.
    pub subscribe: bool,
    /// Offer the discovery documents.
    pub announce: bool,
}

/// Whether this connection has been subscribed.
#[derive(Debug, Clone, Copy, PartialEq, Eq, Structural)]
pub struct Subscriber {
    pub subscribed: bool,
}

impl Subscriber {
    pub fn new() -> (out: Self)
        ensures
            out == (Subscriber { subscribed: false }),
    {
        Subscriber { subscribed: false }
    }

    /// What to do about an event. Subscription and documents are offered after
    /// every event but a failure, until they take.
    pub fn on(&mut self, incoming: &Incoming, meter_topic: &str) -> (out: Response)
        ensures
            (*final(self), out) == reacted(*old(self), *incoming, meter_topic@),
    {
        let mut response = Response {
            reset: false,
            reading: false,
            back_off: false,
            subscribe: false,
            announce: true,
        };
        match incoming {
            Incoming::Connected => {
                self.subscribed = false;
                response.reset = true;
            },
            Incoming::Publish { topic } => {
                response.reading = text::same(topic.as_str(), meter_topic);
            },
            Incoming::Other => {},
            Incoming::Failed => {
                response.back_off = true;
                response.announce = false;
                return response;
            },
        }
        response.subscribe = !self.subscribed;
        response
    }

    /// Notes whether the subscription took. One that did not is offered again
    /// after the next event.
    pub fn offered(&mut self, accepted: bool)
        ensures
            final(self).subscribed == (old(self).subscribed || accepted),
    {
        if accepted {
            self.subscribed = true;
        }
    }
}

/// What an event leaves, and what is done about it.
pub open spec fn reacted(before: Subscriber, incoming: Incoming, meter_topic: Seq<char>) -> (
    Subscriber,
    Response,
) {
    let after = Subscriber { subscribed: before.subscribed && !(incoming is Connected) };
    (
        after,
        Response {
            reset: incoming is Connected,
            reading: incoming matches Incoming::Publish { topic } && topic@ == meter_topic,
            back_off: incoming is Failed,
            subscribe: !(incoming is Failed) && !after.subscribed,
            announce: !(incoming is Failed),
        },
    )
}

/// One event, and whether a subscription offered after it would take.
pub struct Turn {
    pub incoming: Incoming,
    pub takes: bool,
}

/// The subscriber after a history.
pub open spec fn after_all(history: Seq<Turn>, meter_topic: Seq<char>) -> Subscriber
    decreases history.len(),
{
    if history.len() == 0 {
        Subscriber { subscribed: false }
    } else {
        let turn = history.last();
        let (state, response) = reacted(
            after_all(history.drop_last(), meter_topic),
            turn.incoming,
            meter_topic,
        );
        if response.subscribe && turn.takes {
            Subscriber { subscribed: true }
        } else {
            state
        }
    }
}

/// An offer took, and the connection has held since.
pub open spec fn took(history: Seq<Turn>, i: int) -> bool {
    &&& 0 <= i < history.len()
    &&& history[i].takes && !(history[i].incoming is Failed)
    &&& forall|j: int| i < j < history.len() ==> !((#[trigger] history[j]).incoming is Connected)
}

/// A connection counts as subscribed exactly where an offer took on that very
/// connection. So a subscription is offered on every connection, and again and
/// again until it takes.
pub proof fn subscribed_means_taken_on_this_connection(
    history: Seq<Turn>,
    meter_topic: Seq<char>,
)
    ensures
        after_all(history, meter_topic).subscribed <==> exists|i: int| #[trigger] took(history, i),
    decreases history.len(),
{
    if history.len() > 0 {
        let front = history.drop_last();
        let n = front.len() as int;
        let last = history.last();
        subscribed_means_taken_on_this_connection(front, meter_topic);
        if after_all(history, meter_topic).subscribed {
            if last.takes && !(last.incoming is Failed) {
                assert(took(history, n));
            } else {
                let i = choose|i: int| #[trigger] took(front, i);
                assert forall|j: int| i < j < history.len() implies !((
                #[trigger] history[j]).incoming is Connected) by {
                    if j < n {
                        assert(front[j] == history[j]);
                    }
                }
                assert(front[i] == history[i]);
                assert(took(history, i));
            }
        }
        if exists|i: int| #[trigger] took(history, i) {
            let i = choose|i: int| #[trigger] took(history, i);
            if i < n {
                assert(!(history[n].incoming is Connected));
                assert forall|j: int| i < j < front.len() implies !((
                #[trigger] front[j]).incoming is Connected) by {
                    assert(front[j] == history[j]);
                }
                assert(front[i] == history[i]);
                assert(took(front, i));
            }
        }
    } else {
        assert forall|i: int| !#[trigger] took(history, i) by {}
    }
}

/// A new connection forgets what was announced and subscribed; a message is read
/// exactly if it is on the meter's topic; a failure is waited out and offers nothing;
/// everything else offers the documents, and the subscription until it takes.
pub proof fn a_connection_is_answered_by_what_it_reports(
    before: Subscriber,
    incoming: Incoming,
    meter_topic: Seq<char>,
)
    ensures
        ({
            let (after, response) = reacted(before, incoming, meter_topic);
            &&& incoming is Connected ==> response.reset && response.subscribe && response.announce
                && !response.reading && !response.back_off && !after.subscribed
            &&& incoming matches Incoming::Publish { topic } ==> {
                &&& response.reading <==> topic@ == meter_topic
                &&& response.announce && !response.reset && !response.back_off
                &&& response.subscribe == !before.subscribed
                &&& after == before
            }
            &&& incoming is Other ==> response.announce && !response.reading && !response.reset
                && !response.back_off && response.subscribe == !before.subscribed && after
                == before
            &&& incoming is Failed ==> response.back_off && !response.announce
                && !response.subscribe && !response.reading && !response.reset && after == before
        }),
{
}

} // verus!
