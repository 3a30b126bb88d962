//! The text a command is recorded as, and the command a decision implies.

use zendure::command::Command;
use zendure::models::{ControlDecision, ControlMode};
use zendure::units::{GridPower, Setpoint};

#[test]
fn display_renders_the_journaled_command_string() {
    assert_eq!(Command::SetDischarge(Setpoint::new(145)).to_string(), "set_discharge(145W)");
    assert_eq!(Command::SetCharge(Setpoint::new(2400)).to_string(), "set_charge(2400W)");
    assert_eq!(Command::SetIdle.to_string(), "set_idle");
    assert_eq!(Command::SetStandby.to_string(), "set_standby");
    // Zero is still rendered, not elided.
    assert_eq!(Command::SetCharge(Setpoint::zero()).to_string(), "set_charge(0W)");
}

#[test]
fn decision_maps_to_the_command_its_mode_implies() {
    let charge = ControlDecision {
        mode: ControlMode::Charge,
        power_watts: Setpoint::new(740),
        reason: String::new(),
        grid_power: GridPower { mw: -800_000 },
    };
    assert_eq!(Command::from(&charge), Command::SetCharge(Setpoint::new(740)));

    // Idle and standby drop the power rather than sending a zero setpoint.
    let idle = ControlDecision {
        mode: ControlMode::Idle,
        power_watts: Setpoint::zero(),
        reason: String::new(),
        grid_power: GridPower::zero(),
    };
    assert_eq!(Command::from(&idle), Command::SetIdle);
}

#[test]
fn every_mode_has_its_name() {
    assert_eq!(ControlMode::Charge.to_string(), "charge");
    assert_eq!(ControlMode::Discharge.to_string(), "discharge");
    assert_eq!(ControlMode::Idle.to_string(), "idle");
    assert_eq!(ControlMode::Standby.to_string(), "standby");
}

/// A setpoint is never negative, and ramping keeps three quarters of it.
#[test]
fn a_negative_setpoint_is_zero() {
    assert_eq!(Setpoint::new(-5), Setpoint::zero());
    assert_eq!(Setpoint::new(7).get(), 7);
    assert_eq!(Setpoint::new(7).ramped(), Setpoint::new(5));
}
