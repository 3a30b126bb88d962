//! The events a session records.

use zendure::battery::BatteryState;
use zendure::clock::{Clock, Weekday};
use zendure::event::Event;
use zendure::units::{BatteryPower, GridPower, PowerCap, Soc, SolarPower, Timestamp};
use zendure::world::{DeviceId, Measurement, MeterReading};

const NOW_MS: i64 = 1_757_000_000_000;

fn clock() -> Clock {
    Clock {
        now: Timestamp::from_millis(NOW_MS),
        hour: 19,
        day_ordinal: 255,
        weekday: Weekday::Wed,
    }
}

fn meter() -> Event {
    Event::Meter {
        at: clock(),
        grid: MeterReading::new(
            GridPower { mw: 150_500 },
            [GridPower { mw: 10_000 }, GridPower { mw: -200_000 }, GridPower { mw: 340_500 }],
        ),
        solar: SolarPower { mw: 200_000 },
    }
}

fn device_update() -> Event {
    Event::DeviceUpdate {
        at: clock(),
        id: DeviceId::new("SN123"),
        measurement: Measurement::Battery(BatteryState {
            soc: Soc::new(50),
            max_discharge_power: PowerCap::new(800),
            max_charge_power: PowerCap::new(2400),
            current_power: BatteryPower { w: -300 },
            soc_calibrating: false,
            soc_limit_reached: false,
            fault: false,
        }),
    }
}

fn every_variant() -> [Event; 3] {
    [meter(), device_update(), Event::MqttTimeout { at: clock() }]
}

#[test]
fn kind_strings_are_pinned() {
    assert_eq!(meter().kind(), "meter");
    assert_eq!(device_update().kind(), "device_update");
    assert_eq!(Event::MqttTimeout { at: clock() }.kind(), "mqtt_timeout");
}

/// Both directions: nothing absent, nothing stale.
#[test]
fn kinds_lists_every_variant_and_nothing_else() {
    let produced: Vec<&str> = every_variant().iter().map(|e| e.kind()).collect();
    for kind in Event::kinds() {
        assert!(produced.contains(&kind), "{kind} is listed but unreachable");
    }
    for kind in produced {
        assert!(Event::kinds().contains(&kind), "{kind} is not listed");
    }
}

#[test]
fn at_reads_the_clock_for_every_variant() {
    for event in every_variant() {
        assert_eq!(event.at(), Timestamp::from_millis(NOW_MS));
    }
}

#[test]
fn a_clone_is_the_same_event() {
    for event in every_variant() {
        assert_eq!(event.clone(), event);
    }
}

#[test]
fn a_weekday_is_written_by_its_first_three_letters() {
    let all = [
        (Weekday::Mon, "Mon"),
        (Weekday::Tue, "Tue"),
        (Weekday::Wed, "Wed"),
        (Weekday::Thu, "Thu"),
        (Weekday::Fri, "Fri"),
        (Weekday::Sat, "Sat"),
        (Weekday::Sun, "Sun"),
    ];
    for (day, text) in all {
        assert_eq!(day.as_str(), text);
    }
}
