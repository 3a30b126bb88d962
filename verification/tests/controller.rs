//! The rules a decision follows.

use zendure::battery::BatteryState;
use zendure::clock::{Clock, Weekday};
use zendure::config::SessionConfig;
use zendure::controller::Controller;
use zendure::models::{ControlDecision, ControlMode};
use zendure::units::{
    BatteryPower, GridPower, PowerCap, PowerMargin, Setpoint, Soc, SolarPower, Timestamp,
};
use zendure::world::{DeviceId, Measurement, MeterReading, World};

const NOW_MS: i64 = 1_757_000_000_000;

fn clock_at(secs: i64) -> Clock {
    Clock {
        now: Timestamp::from_millis(NOW_MS + secs * 1000),
        hour: 19,
        day_ordinal: 100,
        weekday: Weekday::Wed,
    }
}

fn tuning() -> SessionConfig {
    SessionConfig {
        charge_margin: PowerMargin::new(50),
        discharge_margin: PowerMargin::new(5),
        charge_start_threshold: GridPower { mw: -100_000 },
        discharge_start_threshold: GridPower { mw: 0 },
        min_mode_duration_secs: 10,
        min_decision_interval_secs: 5,
        idle_timeout_secs: 300,
        min_idle_before_discharge_secs: 300,
        cycle_warn_threshold: 200,
        min_soc: Soc::new(10),
        max_soc: Soc::new(80),
        balance_weekday: Some(Weekday::Mon),
        solar_discharge_block_threshold: SolarPower { mw: 200_000 },
        mqtt_timeout_secs: 120,
    }
}

fn controller() -> Controller {
    Controller::from_session(&tuning(), &clock_at(0))
}

fn battery() -> BatteryState {
    BatteryState {
        soc: Soc::new(50),
        max_discharge_power: PowerCap::new(800),
        max_charge_power: PowerCap::new(2400),
        current_power: BatteryPower::zero(),
        soc_calibrating: false,
        soc_limit_reached: false,
        fault: false,
    }
}

fn world(watts: i64, solar: i64, battery: BatteryState) -> World {
    let mut world = World::new();
    world.observe_meter(
        MeterReading::total_only(GridPower { mw: watts * 1000 }),
        SolarPower { mw: solar * 1000 },
    );
    world.observe_device(DeviceId::new("SN1"), Measurement::Battery(battery));
    world
}

fn decide(controller: &mut Controller, watts: i64, battery: BatteryState, secs: i64) -> ControlDecision {
    controller.decide(&world(watts, 0, battery), &clock_at(secs)).unwrap()
}

#[test]
fn a_surplus_is_charged_with_less_the_margin_and_ramped_first() {
    let mut c = controller();
    let first = decide(&mut c, -500, battery(), 0);
    assert_eq!(first.mode, ControlMode::Charge);
    assert_eq!(first.power_watts, Setpoint::new(337));
    assert_eq!(first.reason, "Solar excess: exporting 500W, charging at 337W (ramped 75%)");
    assert_eq!(first.grid_power, GridPower { mw: -500_000 });

    let second = decide(&mut c, -500, battery(), 5);
    assert_eq!(second.power_watts, Setpoint::new(450));
    assert_eq!(second.reason, "Solar excess: exporting 500W, charging at 450W");
}

/// What the battery already takes counts towards the next figure.
#[test]
fn the_current_flow_is_part_of_the_next_setpoint() {
    let mut c = controller();
    decide(&mut c, -500, battery(), 0);
    let charging = BatteryState { current_power: BatteryPower { w: -337 }, ..battery() };
    let next = decide(&mut c, -163, charging, 5);
    assert_eq!(next.power_watts, Setpoint::new(450));
}

#[test]
fn a_demand_is_met_up_to_the_cap() {
    let mut c = controller();
    let first = decide(&mut c, 2000, battery(), 0);
    assert_eq!(first.mode, ControlMode::Discharge);
    assert_eq!(first.power_watts, Setpoint::new(600));
    assert_eq!(
        first.reason,
        "Grid demand: importing 2000W, discharging at 600W (hour 19) (ramped 75%)"
    );
    let second = decide(&mut c, 2000, battery(), 5);
    assert_eq!(second.power_watts, Setpoint::new(800));
    assert_eq!(second.reason, "Grid demand: importing 2000W, discharging at 800W (hour 19)");
}

#[test]
fn a_small_surplus_starts_nothing_but_keeps_a_charge_going() {
    let mut c = controller();
    let idle = decide(&mut c, -60, battery(), 0);
    assert_eq!(idle.mode, ControlMode::Idle);
    assert_eq!(idle.reason, "No action needed (grid: -60W, hour: 19)");

    decide(&mut c, -500, battery(), 5);
    let kept = decide(&mut c, -60, battery(), 10);
    assert_eq!(kept.mode, ControlMode::Charge);
    assert_eq!(kept.power_watts, Setpoint::new(10));
}

#[test]
fn a_calibrating_battery_is_left_idle() {
    let mut c = controller();
    let busy = BatteryState { soc_calibrating: true, ..battery() };
    let decision = decide(&mut c, -500, busy, 0);
    assert_eq!(decision.mode, ControlMode::Idle);
    assert_eq!(decision.power_watts, Setpoint::zero());
    assert_eq!(decision.reason, "SOC calibration in progress, idling");
}

#[test]
fn a_faulty_battery_is_left_idle() {
    let mut c = controller();
    decide(&mut c, -500, battery(), 0);
    let faulty = BatteryState { fault: true, ..battery() };
    let decision = decide(&mut c, -500, faulty, 5);
    assert_eq!(decision.mode, ControlMode::Idle);
    assert_eq!(decision.reason, "Device reports a fault, idling");
    assert_eq!(c.state().last_mode, ControlMode::Idle);
    assert_eq!(c.state().last_idle_start, Some(clock_at(5).now));
}

#[test]
fn the_ceiling_is_lifted_on_the_balance_day() {
    let full = BatteryState { soc: Soc::new(85), ..battery() };
    let mut c = controller();
    assert_eq!(decide(&mut c, -500, full, 0).mode, ControlMode::Idle);

    let monday = Clock { weekday: Weekday::Mon, ..clock_at(5) };
    let decision = c.decide(&world(-500, 0, full), &monday).unwrap();
    assert_eq!(decision.mode, ControlMode::Charge);
}

#[test]
fn a_battery_that_refuses_charge_is_not_charged() {
    let mut c = controller();
    let limited = BatteryState { soc_limit_reached: true, ..battery() };
    assert_eq!(decide(&mut c, -500, limited, 0).mode, ControlMode::Idle);
}

#[test]
fn a_battery_at_its_floor_is_not_discharged() {
    let mut c = controller();
    let low = BatteryState { soc: Soc::new(10), ..battery() };
    assert_eq!(decide(&mut c, 500, low, 0).mode, ControlMode::Idle);
}

#[test]
fn solar_at_the_threshold_blocks_a_discharge() {
    let mut c = controller();
    let blocked = c.decide(&world(500, 200, battery()), &clock_at(0)).unwrap();
    assert_eq!(blocked.mode, ControlMode::Idle);
    let below = c.decide(&world(500, 199, battery()), &clock_at(5)).unwrap();
    assert_eq!(below.mode, ControlMode::Discharge);
}

#[test]
fn after_a_charge_a_discharge_waits_for_a_long_enough_idle() {
    let mut c = controller();
    decide(&mut c, -500, battery(), 0);
    assert_eq!(decide(&mut c, 500, battery(), 20).mode, ControlMode::Idle);
    assert_eq!(decide(&mut c, 500, battery(), 319).mode, ControlMode::Idle);
    assert_eq!(decide(&mut c, 500, battery(), 325).mode, ControlMode::Discharge);
}

#[test]
fn a_swing_within_the_cooldown_is_suppressed() {
    let mut c = controller();
    decide(&mut c, 500, battery(), 0);
    let held = decide(&mut c, -500, battery(), 5);
    assert_eq!(held.mode, ControlMode::Idle);
    assert_eq!(held.reason, "Cooldown: suppressed charge (was discharge for 5s, min 10s)");
    assert_eq!(c.cycle_counts().daily_cooldown_suppressions, 1);
    assert_eq!(c.state().last_mode, ControlMode::Discharge);

    assert_eq!(decide(&mut c, -500, battery(), 10).mode, ControlMode::Charge);
}

#[test]
fn a_long_idle_ends_in_standby() {
    let mut c = controller();
    assert_eq!(decide(&mut c, 0, battery(), 299).mode, ControlMode::Idle);
    let standby = decide(&mut c, 0, battery(), 304);
    assert_eq!(standby.mode, ControlMode::Standby);
    assert_eq!(standby.reason, "Idle for 5+ minutes, entering standby");
}

#[test]
fn the_cycle_limit_stands_until_midnight() {
    let mut c = controller();
    c.state.daily_transitions = 200;
    let held = decide(&mut c, -500, battery(), 0);
    assert_eq!(held.mode, ControlMode::Standby);
    assert_eq!(held.reason, "Cycle limit: 200 transitions today (max 200), standby until midnight");

    let tomorrow = Clock { day_ordinal: 101, ..clock_at(20) };
    let fresh = c.decide(&world(-500, 0, battery()), &tomorrow).unwrap();
    assert_eq!(fresh.mode, ControlMode::Charge);
    assert_eq!(c.cycle_counts().daily_transitions, 1);
}

#[test]
fn decisions_keep_the_minimum_interval() {
    let mut c = controller();
    decide(&mut c, -500, battery(), 0);
    assert_eq!(c.decide(&world(-500, 0, battery()), &clock_at(4)), None);
    assert!(c.decide(&world(-500, 0, battery()), &clock_at(5)).is_some());
}

#[test]
fn a_snapshot_put_back_is_the_snapshot() {
    let mut c = controller();
    decide(&mut c, -500, battery(), 0);
    let snapshot = c.state();
    let mut other = controller();
    assert_ne!(other.state(), snapshot);
    other.restore(snapshot);
    assert_eq!(other.state(), snapshot);
}
