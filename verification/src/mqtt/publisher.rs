//! Publishing that never waits for a broker: what is counted and what is said
//! when a message cannot be taken.

use vstd::prelude::*;

use crate::backpressure::{is_power_of_two, tally};
use crate::publish::Accepted;

verus! {

/// How many messages may wait for the broker before the next one is dropped.
pub const QUEUE_DEPTH: usize = 256;

/// How an attempt to queue a message came out.
#[derive(Debug, Clone, Copy, PartialEq, Eq, Structural)]
pub enum Attempt {
    Taken,
    Refused(Refused),
}

/// Why a message was not taken.
#[derive(Debug, Clone, Copy, PartialEq, Eq, Structural)]
pub enum Refused {
    /// The broker is slow or gone, and the queue has filled.
    QueueFull,
    /// The task that delivers ended early. Nothing is published from here on.
    SinkGone,
    /// Publishing was closed, as expected.
    ShuttingDown,
}

/// What is worth a line in the log.
#[derive(Debug, Clone, Copy, PartialEq, Eq, Structural)]
pub enum Report {
    Nothing,
    /// The queue is full, and so many messages were dropped so far.
    Dropping(u64),
    /// The delivery task has gone.
    SinkGone,
    /// So many publishes failed so far.
    Failing(u64),
}

/// What was lost, and where. A delivery path that fails every message keeps the
/// queue empty, so the two are counted apart.
#[derive(Debug, Clone, Copy, PartialEq, Eq, Structural)]
pub struct Losses {
    pub dropped: u64,
    pub failed: u64,
    /// That the delivery task has gone is said once.
    pub sink_gone: bool,
}

impl Losses {
    #[verifier::allow_in_spec]
    pub fn none() -> Self
        returns
            (Losses { dropped: 0, failed: 0, sink_gone: false }),
    {
        Losses { dropped: 0, failed: 0, sink_gone: false }
    }

    /// Accounts for an attempt to queue a message.
    pub fn publish(&mut self, attempt: Attempt) -> (out: (Accepted, Report))
        requires
            old(self).dropped < u64::MAX,
        ensures
            (*final(self), out.0, out.1) == accounted(*old(self), attempt),
    {
        match attempt {
            Attempt::Taken => (Accepted::Queued, Report::Nothing),
            Attempt::Refused(refused) => {
                let mut dropped: u64 = self.dropped;
                let loud = tally(&mut dropped);
                self.dropped = dropped;
                let report = match refused {
                    Refused::QueueFull => match loud {
                        Some(n) => Report::Dropping(n),
                        None => Report::Nothing,
                    },
                    Refused::SinkGone => {
                        let known = self.sink_gone;
                        self.sink_gone = true;
                        if known {
                            Report::Nothing
                        } else {
                            Report::SinkGone
                        }
                    },
                    Refused::ShuttingDown => Report::Nothing,
                };
                (Accepted::Dropped, report)
            },
        }
    }

    /// Accounts for a message that was queued and could not be delivered.
    pub fn delivery_failed(&mut self) -> (out: Report)
        requires
            old(self).failed < u64::MAX,
        ensures
            *final(self) == (Losses { failed: (old(self).failed + 1) as u64, ..*old(self) }),
            out == if is_power_of_two(old(self).failed + 1) {
                Report::Failing((old(self).failed + 1) as u64)
            } else {
                Report::Nothing
            },
    {
        let mut failed: u64 = self.failed;
        let loud = tally(&mut failed);
        self.failed = failed;
        match loud {
            Some(n) => Report::Failing(n),
            None => Report::Nothing,
        }
    }

    /// Whether there is anything to say on closing.
    pub fn any(&self) -> (out: bool)
        ensures
            out == (self.dropped > 0 || self.failed > 0),
    {
        self.dropped > 0 || self.failed > 0
    }
}

/// What an attempt leaves: the losses, the answer, and what is said.
pub open spec fn accounted(before: Losses, attempt: Attempt) -> (Losses, Accepted, Report) {
    let after = Losses { dropped: (before.dropped + 1) as u64, ..before };
    match attempt {
        Attempt::Taken => (before, Accepted::Queued, Report::Nothing),
        Attempt::Refused(Refused::QueueFull) => (
            after,
            Accepted::Dropped,
            if is_power_of_two(before.dropped + 1) {
                Report::Dropping((before.dropped + 1) as u64)
            } else {
                Report::Nothing
            },
        ),
        Attempt::Refused(Refused::SinkGone) => (
            Losses { sink_gone: true, ..after },
            Accepted::Dropped,
            if before.sink_gone {
                Report::Nothing
            } else {
                Report::SinkGone
            },
        ),
        Attempt::Refused(Refused::ShuttingDown) => (after, Accepted::Dropped, Report::Nothing),
    }
}

/// A vanished sink is never reported as a full queue, a shutdown is never
/// reported as either, and a message that is not taken is always counted.
pub proof fn a_refusal_is_reported_by_its_cause(before: Losses, refused: Refused)
    requires
        before.dropped < u64::MAX,
    ensures
        ({
            let (after, accepted, report) = accounted(before, Attempt::Refused(refused));
            &&& report is Dropping ==> refused == Refused::QueueFull
            &&& report is SinkGone ==> refused == Refused::SinkGone
            &&& refused == Refused::ShuttingDown ==> report is Nothing
            &&& accepted == Accepted::Dropped
            &&& after.dropped == before.dropped + 1
        }),
{
}

/// That the sink is gone is said once, whatever follows.
pub proof fn a_vanished_sink_is_reported_once(before: Losses, first: Attempt, later: Attempt)
    requires
        accounted(before, first).2 is SinkGone,
    ensures
        accounted(before, first).0.sink_gone,
        forall|losses: Losses| #[trigger]
            accounted(losses, later).2 is SinkGone ==> !losses.sink_gone,
        accounted(accounted(before, first).0, later).0.sink_gone,
{
}

/// A message that is taken costs nothing, and one that meets a full queue is counted
/// and said at the totals that are worth a line.
pub proof fn an_attempt_is_accounted_for(before: Losses)
    requires
        before.dropped < u64::MAX,
    ensures
        accounted(before, Attempt::Taken) == (before, Accepted::Queued, Report::Nothing),
        ({
            let (after, accepted, report) = accounted(
                before,
                Attempt::Refused(Refused::QueueFull),
            );
            &&& after.failed == before.failed
            &&& after.sink_gone == before.sink_gone
            &&& report is Dropping <==> is_power_of_two(before.dropped + 1)
            &&& report matches Report::Dropping(n) ==> n == before.dropped + 1
        }),
        ({
            let (after, accepted, report) = accounted(before, Attempt::Refused(Refused::SinkGone));
            &&& after.sink_gone
            &&& after.failed == before.failed
            &&& report is SinkGone <==> !before.sink_gone
        }),
{
}

} // verus!
