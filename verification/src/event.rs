//! Everything the engine can react to.

use vstd::prelude::*;

use crate::clock::Clock;
use crate::units::{SolarPower, Timestamp};
use crate::world::{DeviceId, Measurement, MeterReading};

verus! {

/// Something that happened, stamped with the clock in effect when it was
/// observed. Carrying the whole clock is what keeps weekday-dependent
/// behaviour replayable.
#[derive(Debug, PartialEq)]
pub enum Event {
    Meter { at: Clock, grid: MeterReading, solar: SolarPower },
    /// A device told us about itself.
    DeviceUpdate { at: Clock, id: DeviceId, measurement: Measurement },
    MqttTimeout { at: Clock },
}

/// An [`Event`] as a mathematical value.
pub enum Happening {
    Meter { at: Clock, grid: MeterReading, solar: SolarPower },
    DeviceUpdate { at: Clock, id: Seq<char>, measurement: Measurement },
    MqttTimeout { at: Clock },
}

impl View for Event {
    type V = Happening;

    open spec fn view(&self) -> Happening {
        match *self {
            Event::Meter { at, grid, solar } => Happening::Meter { at, grid, solar },
            Event::DeviceUpdate { at, id, measurement } => Happening::DeviceUpdate {
                at,
                id: id@,
                measurement,
            },
            Event::MqttTimeout { at } => Happening::MqttTimeout { at },
        }
    }
}

impl Happening {
    pub open spec fn clock(self) -> Clock {
        match self {
            Happening::Meter { at, .. } => at,
            Happening::DeviceUpdate { at, .. } => at,
            Happening::MqttTimeout { at } => at,
        }
    }

    /// The journal's `kind` column.
    pub open spec fn kind(self) -> Seq<char> {
        match self {
            Happening::Meter { .. } => "meter"@,
            Happening::DeviceUpdate { .. } => "device_update"@,
            Happening::MqttTimeout { .. } => "mqtt_timeout"@,
        }
    }
}

/// The views of a run of events.
pub open spec fn happenings(events: Seq<Event>) -> Seq<Happening> {
    events.map_values(|e: Event| e@)
}

impl Event {
    /// Every string `kind` can return. The journal also holds rows that are no
    /// events, so a reader that rebuilds the fold selects on these.
    pub fn kinds() -> (out: [&'static str; 3])
        ensures
            out@[0]@ == "meter"@,
            out@[1]@ == "device_update"@,
            out@[2]@ == "mqtt_timeout"@,
    {
        ["meter", "device_update", "mqtt_timeout"]
    }

    /// The clock the event was captured with.
    pub fn clock(&self) -> (out: &Clock)
        ensures
            *out == self@.clock(),
    {
        match self {
            Event::Meter { at, .. } => at,
            Event::DeviceUpdate { at, .. } => at,
            Event::MqttTimeout { at } => at,
        }
    }

    /// The event's own observed time.
    pub fn at(&self) -> (out: Timestamp)
        ensures
            out == self@.clock().now,
    {
        self.clock().now
    }

    /// The journal's `kind` column.
    pub fn kind(&self) -> (out: &'static str)
        ensures
            out@ == self@.kind(),
    {
        match self {
            Event::Meter { .. } => "meter",
            Event::DeviceUpdate { .. } => "device_update",
            Event::MqttTimeout { .. } => "mqtt_timeout",
        }
    }
}

impl Clone for Event {
    fn clone(&self) -> (out: Self)
        ensures
            out@ == self@,
    {
        match self {
            Event::Meter { at, grid, solar } => Event::Meter {
                at: *at,
                grid: *grid,
                solar: *solar,
            },
            Event::DeviceUpdate { at, id, measurement } => Event::DeviceUpdate {
                at: *at,
                id: id.clone(),
                measurement: *measurement,
            },
            Event::MqttTimeout { at } => Event::MqttTimeout { at: *at },
        }
    }
}

/// Every kind an event can have is listed, and every listed kind is some
/// event's: a reader that selects on the list loses no event and admits
/// nothing else.
pub proof fn kinds_are_exactly_the_listed(kind: Seq<char>)
    ensures
        (kind == "meter"@ || kind == "device_update"@ || kind == "mqtt_timeout"@) <==> exists|
            event: Happening,
        | #[trigger] event.kind() == kind,
{
    let at: Clock = arbitrary();
    let meter = Happening::Meter { at, grid: arbitrary(), solar: arbitrary() };
    let update = Happening::DeviceUpdate { at, id: arbitrary(), measurement: arbitrary() };
    let timeout = Happening::MqttTimeout { at };
    assert(meter.kind() == "meter"@);
    assert(update.kind() == "device_update"@);
    assert(timeout.kind() == "mqtt_timeout"@);
}

/// An event is stamped with the clock that it was captured with.
pub proof fn an_event_has_its_own_clock(event: Happening)
    ensures
        event matches Happening::Meter { at, grid, solar } ==> event.clock() == at && event.kind()
            == "meter"@,
        event matches Happening::DeviceUpdate { at, id, measurement } ==> event.clock() == at
            && event.kind() == "device_update"@,
        event matches Happening::MqttTimeout { at } ==> event.clock() == at && event.kind()
            == "mqtt_timeout"@,
{
}

} // verus!
