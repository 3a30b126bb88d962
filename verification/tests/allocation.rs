//! Which battery a decision reaches.

use zendure::allocate::{allocate, Directive};
use zendure::battery::BatteryState;
use zendure::command::Command;
use zendure::models::{ControlDecision, ControlMode};
use zendure::units::{BatteryPower, GridPower, PowerCap, Setpoint, Soc};
use zendure::world::{DeviceId, Measurement, World};

fn battery() -> BatteryState {
    BatteryState {
        soc: Soc::new(50),
        max_discharge_power: PowerCap::new(800),
        max_charge_power: PowerCap::new(2400),
        current_power: BatteryPower { w: 0 },
        soc_calibrating: false,
        soc_limit_reached: false,
        fault: false,
    }
}

/// The ids are registered out of order at the call sites below, so an
/// allocation that merely preserved insertion order would fail the ordering
/// assertions rather than pass by luck.
fn world_with(ids: &[&str]) -> World {
    let mut world = World::new();
    for id in ids {
        world.observe_device(DeviceId::new(id), Measurement::Battery(battery()));
    }
    world
}

fn decision(mode: ControlMode, watts: i32) -> ControlDecision {
    ControlDecision {
        mode,
        power_watts: Setpoint::new(watts),
        reason: "Grid demand".to_string(),
        grid_power: GridPower { mw: 150_500 },
    }
}

fn order(id: &str, command: Command) -> Directive {
    Directive::Battery { device: DeviceId::new(id), command }
}

/// One battery, one directive, carrying the setpoint the objective produced.
#[test]
fn one_battery_gets_the_setpoint() {
    let world = world_with(&["battery-a"]);
    assert_eq!(
        allocate(&decision(ControlMode::Charge, 1200), &world),
        vec![order("battery-a", Command::SetCharge(Setpoint::new(1200)))],
    );
}

/// A command with no magnitude broadcasts, in id order.
#[test]
fn idle_reaches_every_battery_in_id_order() {
    let world = world_with(&["battery-b", "battery-a"]);
    assert_eq!(
        allocate(&decision(ControlMode::Idle, 0), &world),
        vec![order("battery-a", Command::SetIdle), order("battery-b", Command::SetIdle)],
    );
}

#[test]
fn standby_reaches_every_battery() {
    let world = world_with(&["battery-a", "battery-b"]);
    assert_eq!(
        allocate(&decision(ControlMode::Standby, 0), &world),
        vec![order("battery-a", Command::SetStandby), order("battery-b", Command::SetStandby)],
    );
}

/// A setpoint is a figure for the house: exactly one battery is told it.
#[test]
fn a_setpoint_goes_to_the_primary_battery_only() {
    let world = world_with(&["battery-b", "battery-a", "battery-c"]);
    assert_eq!(
        allocate(&decision(ControlMode::Discharge, 600), &world),
        vec![order("battery-a", Command::SetDischarge(Setpoint::new(600)))],
    );
}

#[test]
fn the_primary_is_the_battery_the_objective_sized_against() {
    let world = world_with(&["zzz", "aaa"]);
    let directives = allocate(&decision(ControlMode::Charge, 900), &world);

    assert_eq!(directives.len(), 1);
    assert_eq!(directives[0].device(), &DeviceId::new("aaa"));
    let batteries = world.batteries();
    assert_eq!(batteries.first().map(|entry| &entry.0), Some(directives[0].device()));
}

#[test]
fn no_battery_commands_nothing() {
    let world = world_with(&[]);
    assert!(allocate(&decision(ControlMode::Charge, 1200), &world).is_empty());
    assert!(allocate(&decision(ControlMode::Idle, 0), &world).is_empty());
}

#[test]
fn a_directive_is_described_by_its_command() {
    let directive = order("SN1", Command::SetDischarge(Setpoint::new(145)));
    assert_eq!(directive.describe(), "set_discharge(145W)");
}

/// A second observation of a device replaces the first and adds no entry.
#[test]
fn a_device_observed_twice_is_one_battery() {
    let mut world = world_with(&["b", "a"]);
    let fuller = BatteryState { soc: Soc::new(81), ..battery() };
    world.observe_device(DeviceId::new("a"), Measurement::Battery(fuller));
    let batteries = world.batteries();
    assert_eq!(batteries.len(), 2);
    assert_eq!(batteries[0], (DeviceId::new("a"), fuller));
    assert_eq!(world.battery(), Some(fuller));
}
