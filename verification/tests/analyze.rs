//! Energy per day out of a recording.

use zendure::analyze::{daily, local_date, render};
use zendure::battery::BatteryState;
use zendure::calendar::Date;
use zendure::clock::{Clock, Weekday};
use zendure::event::Event;
use zendure::units::{
    BatteryPower, Duration, GridPower, PowerCap, Soc, SolarPower, Timestamp, WattHours,
};
use zendure::world::{DeviceId, Measurement, MeterReading};

/// 2026-09-13T10:00:00Z, whose local day-of-year in Amsterdam is 256.
const BASE_MS: i64 = 1_789_293_600_000;
const ORDINAL: u32 = 256;

fn clock_of(now_ms: i64, ordinal: u32) -> Clock {
    Clock {
        now: Timestamp::from_millis(now_ms),
        hour: 12,
        day_ordinal: ordinal,
        weekday: Weekday::Wed,
    }
}

fn clock(offset_secs: i64, ordinal: u32) -> Clock {
    clock_of(BASE_MS + offset_secs * 1000, ordinal)
}

fn watts(w: i64) -> GridPower {
    GridPower { mw: w * 1000 }
}

fn meter_at(offset_secs: i64, ordinal: u32, total: i64, phases: [i64; 3]) -> Event {
    Event::Meter {
        at: clock(offset_secs, ordinal),
        grid: MeterReading::new(watts(total), phases.map(watts)),
        solar: SolarPower::zero(),
    }
}

fn meter(offset_secs: i64, total: i64) -> Event {
    meter_at(offset_secs, ORDINAL, total, [0, 0, 0])
}

fn battery(offset_secs: i64, current_power: i32, soc: u32) -> Event {
    Event::DeviceUpdate {
        at: clock(offset_secs, ORDINAL),
        id: DeviceId::new("battery-a"),
        measurement: Measurement::Battery(BatteryState {
            soc: Soc::new(soc),
            max_discharge_power: PowerCap::new(800),
            max_charge_power: PowerCap::new(2400),
            current_power: BatteryPower { w: current_power },
            soc_calibrating: false,
            soc_limit_reached: false,
            fault: false,
        }),
    }
}

fn date(year: i32, ordinal: u32) -> Date {
    Date::of_year(year, ordinal).unwrap()
}

fn assert_wh(actual: WattHours, expected: f64) {
    let actual = actual.parts as f64 / WattHours::from_wh(1).parts as f64;
    assert!((actual - expected).abs() < 0.01, "expected {expected} Wh, got {actual} Wh");
}

/// 1 kW held across two 30 s steps is 1000 * (60/3600) Wh.
#[test]
fn constant_power_integrates_to_energy() {
    let days = daily(&[meter(0, 1000), meter(30, 1000), meter(60, 1000)]);

    assert_eq!(days.len(), 1);
    assert_wh(days[0].import, 1000.0 * 60.0 / 3600.0);
    assert_eq!(days[0].export, WattHours::zero());
    assert_eq!(days[0].covered, Duration::from_secs(60));
}

#[test]
fn export_is_counted_separately_from_import() {
    let days = daily(&[meter(0, -600), meter(30, -600)]);

    assert_wh(days[0].export, 600.0 * 30.0 / 3600.0);
    assert_eq!(days[0].import, WattHours::zero());
}

/// A hole in the recording is not integrated across as though the power at its
/// edges had held throughout, and the day says its totals are short.
#[test]
fn a_gap_is_skipped_rather_than_integrated_across() {
    let hour = 3600;
    let days = daily(&[
        meter(0, 1000),
        meter(30, 1000),
        // Nothing for an hour, then the same power again.
        meter(30 + hour, 1000),
        meter(60 + hour, 1000),
    ]);

    assert_wh(days[0].import, 1000.0 * 60.0 / 3600.0);
    assert_eq!(days[0].covered, Duration::from_secs(60));
    let coverage = days[0].coverage() as f64 / 86_400_000.0;
    assert!(
        coverage < 0.05,
        "an hour-long hole should leave coverage obviously short, got {coverage}"
    );
}

#[test]
fn a_backwards_step_contributes_nothing() {
    let days = daily(&[meter(60, 1000), meter(0, 1000)]);

    assert_eq!(days[0].import, WattHours::zero());
    assert_eq!(days[0].covered, Duration::zero());
}

#[test]
fn export_while_charging_is_not_unstored() {
    let days = daily(&[battery(0, -500, 50), meter(0, -900), meter(30, -900)]);

    assert_wh(days[0].export, 900.0 * 30.0 / 3600.0);
    assert_eq!(days[0].unstored_export, WattHours::zero());
}

#[test]
fn export_while_idle_is_unstored() {
    let days = daily(&[battery(0, 0, 80), meter(0, -900), meter(30, -900)]);

    assert_wh(days[0].unstored_export, 900.0 * 30.0 / 3600.0);
}

/// An absent battery is not read as an idle one.
#[test]
fn readings_before_the_first_poll_contribute_no_battery_figures() {
    let days = daily(&[meter(0, -900), meter(30, -900)]);

    assert_wh(days[0].export, 900.0 * 30.0 / 3600.0);
    assert_eq!(days[0].unstored_export, WattHours::zero());
    assert_eq!(days[0].above_cap, WattHours::zero());
    assert_eq!(days[0].soc_min, None);
}

/// 1500 W of demand while the battery already supplies 800 leaves 700 above an
/// 800 W cap.
#[test]
fn above_cap_measures_underlying_demand_against_the_reported_limit() {
    let days = daily(&[battery(0, 800, 50), meter(0, 700), meter(30, 700)]);

    assert_wh(days[0].above_cap, 700.0 * 30.0 / 3600.0);
}

#[test]
fn demand_within_the_cap_is_not_counted_above_it() {
    let days = daily(&[battery(0, 300, 50), meter(0, 100), meter(30, 100)]);

    assert_eq!(days[0].above_cap, WattHours::zero());
}

/// The first 30 s is a flat 1200 W charge; over the second charging falls from
/// 1200 to nothing while discharging rises to 600.
#[test]
fn charge_and_discharge_are_integrated_from_the_polled_flow() {
    let days = daily(&[
        battery(0, -1200, 40),
        meter(0, 0),
        meter(30, 0),
        battery(30, 600, 45),
        meter(60, 0),
    ]);

    let step = 30.0 / 3600.0;
    assert_wh(days[0].charged, 1200.0 * step + (1200.0 + 0.0) / 2.0 * step);
    assert_wh(days[0].discharged, (0.0 + 600.0) / 2.0 * step);
}

#[test]
fn soc_range_spans_what_was_observed() {
    let days = daily(&[
        battery(0, 0, 40),
        meter(0, 0),
        battery(30, 0, 80),
        meter(30, 0),
        battery(60, 0, 12),
        meter(60, 0),
    ]);

    assert_eq!(days[0].soc_min, Some(Soc::new(12)));
    assert_eq!(days[0].soc_max, Some(Soc::new(80)));
}

#[test]
fn phases_are_integrated_independently() {
    let days = daily(&[
        meter_at(0, ORDINAL, 0, [-900, 500, 400]),
        meter_at(30, ORDINAL, 0, [-900, 500, 400]),
    ]);

    let [a, b, c] = days[0].phases;
    assert_wh(a.export, 900.0 * 30.0 / 3600.0);
    assert_eq!(a.import, WattHours::zero());
    assert_wh(b.import, 500.0 * 30.0 / 3600.0);
    assert_wh(c.import, 400.0 * 30.0 / 3600.0);
}

#[test]
fn each_local_day_gets_its_own_row() {
    let days = daily(&[
        meter_at(0, ORDINAL, 1000, [0; 3]),
        meter_at(30, ORDINAL, 1000, [0; 3]),
        meter_at(86_400, ORDINAL + 1, 1000, [0; 3]),
        meter_at(86_430, ORDINAL + 1, 1000, [0; 3]),
    ]);

    assert_eq!(days.len(), 2);
    assert_eq!(days[0].day, date(2026, 256));
    assert_eq!(days[0].day.to_string(), "2026-09-13");
    assert_eq!(days[1].day, date(2026, 257));
}

/// Half an hour into 1 January in Amsterdam it is still 31 December in UTC.
#[test]
fn a_local_new_year_is_dated_in_the_year_it_is_local_to() {
    let new_year_eve_utc = 1_798_759_800_000;

    assert_eq!(
        local_date(&clock_of(new_year_eve_utc, 1)),
        Some(date(2027, 1)),
        "ordinal 1 belongs to the new year, not the UTC year it is still in"
    );
}

#[test]
fn an_empty_range_renders_as_such() {
    assert!(render(&[]).contains("no meter readings"));
}

#[test]
fn the_table_carries_the_figures_it_computed() {
    let days = daily(&[battery(0, 0, 80), meter(0, -3600), meter(30, -3600)]);
    let table = render(&days);

    assert!(table.contains("2026-09-13"), "{table}");
    // 3600 W for 30 s is 30 Wh, i.e. 0.03 kWh, in both export and unstored.
    assert!(table.contains("0.03"), "{table}");
    assert!(table.contains("80-80%"), "{table}");
}

/// A step that rises is the mean of its ends.
#[test]
fn a_rising_power_integrates_to_its_mean() {
    let days = daily(&[meter(0, 0), meter(30, 1200)]);
    assert_eq!(days[0].import, WattHours::from_wh(5));
}
