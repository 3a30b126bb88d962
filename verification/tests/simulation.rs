//! A battery that exists only on paper.

use zendure::command::Command;
use zendure::device::{BatteryController, BatteryMonitor, BatterySpec};
use zendure::simulation::VirtualBattery;
use zendure::units::{
    BatteryPower, Efficiency, PowerCap, Setpoint, Soc, Timestamp, WattHours, Watts,
};
use zendure::world::DeviceId;

/// Generous caps, so that a test can command whatever it wants to.
fn spec() -> BatterySpec {
    BatterySpec {
        max_charge_power: PowerCap::new(5_000),
        max_discharge_power: PowerCap::new(5_000),
    }
}

fn battery(capacity_wh: i64, soc: Soc) -> VirtualBattery {
    VirtualBattery::new(
        DeviceId::new("sim"),
        spec(),
        vec![WattHours::from_wh(capacity_wh)],
        soc,
        Efficiency::new(95_000),
        Efficiency::new(95_000),
        at(0),
    )
}

fn at(secs: i64) -> Timestamp {
    Timestamp::from_millis(1_757_000_000_000 + secs * 1000)
}

/// The state of charge a stored energy is reported as.
fn soc_of(wh: f64, capacity: f64) -> Soc {
    Soc::new((wh / capacity * 100.0).round() as u32)
}

#[test]
fn charging_for_an_hour_at_95_percent_adds_950_wh() {
    let mut battery = battery(100_000, Soc::new(50));

    battery.apply_at(at(0), &Command::SetCharge(Setpoint::new(1_000)));
    let state = battery.reading_at(at(3600));

    let starting_wh = 100_000.0 * 0.5;
    let expected_wh = starting_wh + 950.0;
    assert_eq!(state.soc, soc_of(expected_wh, 100_000.0));
    assert_eq!(state.current_power, BatteryPower { w: -1_000 });
}

#[test]
fn discharging_for_an_hour_at_95_percent_removes_1052_6_wh() {
    let mut battery = battery(100_000, Soc::new(50));

    battery.apply_at(at(0), &Command::SetDischarge(Setpoint::new(1_000)));
    let state = battery.reading_at(at(3600));

    let starting_wh = 100_000.0 * 0.5;
    let expected_wh = starting_wh - (1_000.0 / 0.95);
    assert_eq!(state.soc, soc_of(expected_wh, 100_000.0));
    assert_eq!(state.current_power, BatteryPower { w: 1_000 });
}

#[test]
fn a_full_round_trip_returns_eta_squared_of_the_energy_put_in() {
    // Charging at 1000 W for an hour stores 950 Wh; taking those out again at
    // 1000 W lasts 950 * 0.95 / 1000 h = 3249 s.
    let mut battery = battery(1_000_000, Soc::new(50));

    battery.apply_at(at(0), &Command::SetCharge(Setpoint::new(1_000)));
    let after_charge = battery.reading_at(at(3600));

    battery.apply_at(at(3600), &Command::SetDischarge(Setpoint::new(1_000)));
    let after_discharge = battery.reading_at(at(3600 + 3249));

    let starting_wh = 1_000_000.0 * 0.5;
    let after_charge_wh = starting_wh + 950.0;
    assert_eq!(after_charge.soc, soc_of(after_charge_wh, 1_000_000.0));

    let energy_removed: f64 = 1_000.0 * (3_249.0 / 3_600.0);
    assert!((energy_removed - 902.5).abs() < 1e-6);
    let after_discharge_wh = after_charge_wh - 950.0;
    assert_eq!(after_discharge.soc, soc_of(after_discharge_wh, 1_000_000.0));

    let round_trip_ratio = energy_removed / 1_000.0;
    assert!((round_trip_ratio - 0.95 * 0.95).abs() < 1e-9);
}

#[test]
fn a_full_pack_reports_charge_power_zero() {
    let mut battery = battery(10_000, Soc::full());

    battery.apply_at(at(0), &Command::SetCharge(Setpoint::new(1_000)));
    let state = battery.reading_at(at(3600));

    assert_eq!(state.soc, Soc::full());
    assert_eq!(state.current_power, BatteryPower::zero());
}

#[test]
fn an_empty_pack_reports_discharge_power_zero() {
    let mut battery = battery(10_000, Soc::zero());

    battery.apply_at(at(0), &Command::SetDischarge(Setpoint::new(1_000)));
    let state = battery.reading_at(at(3600));

    assert_eq!(state.soc, Soc::zero());
    assert_eq!(state.current_power, BatteryPower::zero());
}

#[test]
fn no_elapsed_time_mints_nothing() {
    let mut battery = battery(10_000, Soc::new(50));

    battery.apply_at(at(0), &Command::SetCharge(Setpoint::new(1_000)));
    let immediately = battery.reading_at(at(0));

    assert_eq!(immediately.soc, Soc::new(50));
}

#[test]
fn a_command_change_integrates_the_old_power_up_to_the_change() {
    let mut battery = battery(1_000_000, Soc::new(50));

    battery.apply_at(at(0), &Command::SetCharge(Setpoint::new(1_000)));
    battery.apply_at(at(1800), &Command::SetDischarge(Setpoint::new(1_000)));
    let state = battery.reading_at(at(1800));

    let starting_wh = 1_000_000.0 * 0.5;
    let expected_wh = starting_wh + 500.0 * 0.95;
    assert_eq!(state.soc, soc_of(expected_wh, 1_000_000.0));
}

#[test]
fn a_setpoint_above_the_spec_cap_is_clamped() {
    let mut battery = VirtualBattery::new(
        DeviceId::new("sim"),
        BatterySpec {
            max_charge_power: PowerCap::new(2_400),
            max_discharge_power: PowerCap::new(800),
        },
        vec![WattHours::from_wh(10_000)],
        Soc::new(50),
        Efficiency::new(95_000),
        Efficiency::new(95_000),
        at(0),
    );

    battery.apply_at(at(0), &Command::SetDischarge(Setpoint::new(5_000)));
    let state = battery.reading_at(at(0));
    assert_eq!(state.current_power, BatteryPower { w: 800 });
}

/// An hour of charging moves the state of charge of a small pack by percents,
/// and the same energy taken out falls short by what was lost.
#[test]
fn a_small_pack_moves_visibly() {
    let mut battery = battery(2_000, Soc::new(50));
    battery.apply_at(at(0), &Command::SetCharge(Setpoint::new(500)));
    assert_eq!(battery.reading_at(at(3600)).soc, Soc::new(74));
    battery.apply_at(at(3600), &Command::SetDischarge(Setpoint::new(500)));
    assert_eq!(battery.reading_at(at(7200)).soc, Soc::new(47));
    battery.apply_at(at(7200), &Command::SetIdle);
    assert_eq!(battery.reading_at(at(7200 + 3600)).soc, Soc::new(47));
}

#[test]
fn a_poll_reports_the_flow_and_the_packs() {
    let mut battery = battery(2_000, Soc::new(50));
    assert_eq!(battery.id(), &DeviceId::new("sim"));
    assert_eq!(battery.spec(), &spec());
    assert!(battery.prepare(at(0)).is_ok());
    battery.apply_at(at(0), &Command::SetCharge(Setpoint::new(500)));
    assert_eq!(battery.flow_at(at(60)), BatteryPower { w: -500 });
    let reading = battery.poll(at(120)).unwrap();
    assert_eq!(reading.telemetry.charge, Watts { w: 500 });
    assert_eq!(reading.telemetry.discharge, Watts { w: 0 });
    assert_eq!(reading.telemetry.pack_capacities, Some(vec![WattHours::from_wh(2_000)]));
    assert!(reading.raw.is_none());
}
