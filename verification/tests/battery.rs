//! What a device report says of a battery.

use zendure::battery::BatteryState;
use zendure::device::ac2400_plus;
use zendure::models::ZendureProperties;
use zendure::units::{BatteryPower, PowerCap, Soc};

/// A device that zeroed its own limits is honoured, not overwritten.
#[test]
fn reported_zero_limit_is_honored() {
    let props = ZendureProperties {
        electric_level: Some(34),
        charge_max_limit: Some(0),
        inverse_max_power: Some(0),
        ..Default::default()
    };
    let state = BatteryState::from_properties(&props, &ac2400_plus());
    assert_eq!(state.max_charge_power, PowerCap::zero());
    assert_eq!(state.max_discharge_power, PowerCap::zero());
}

#[test]
fn error_flag_sets_fault_but_fault_level_is_ignored() {
    assert!(!BatteryState::from_properties(&ZendureProperties::default(), &ac2400_plus()).fault);

    let benign = ZendureProperties { fault_level: Some(2), ..Default::default() };
    assert!(!BatteryState::from_properties(&benign, &ac2400_plus()).fault);

    let errored = ZendureProperties { is_error: Some(1), ..Default::default() };
    assert!(BatteryState::from_properties(&errored, &ac2400_plus()).fault);
}

#[test]
fn absent_limits_fall_back_to_default() {
    let props = ZendureProperties::default();
    let state = BatteryState::from_properties(&props, &ac2400_plus());
    assert_eq!(state.max_charge_power, ac2400_plus().max_charge_power);
    assert_eq!(state.max_discharge_power, ac2400_plus().max_discharge_power);
}

#[test]
fn reported_nonzero_limits_are_respected() {
    let props = ZendureProperties {
        charge_max_limit: Some(1200),
        inverse_max_power: Some(600),
        ..Default::default()
    };
    let state = BatteryState::from_properties(&props, &ac2400_plus());
    assert_eq!(state.max_charge_power, PowerCap::new(1200));
    assert_eq!(state.max_discharge_power, PowerCap::new(600));
}

#[test]
fn reported_cap_above_the_rating_is_clamped() {
    let props = ZendureProperties { charge_max_limit: Some(5000), ..Default::default() };
    let state = BatteryState::from_properties(&props, &ac2400_plus());
    assert_eq!(state.max_charge_power, PowerCap::new(2400));
}

#[test]
fn the_net_flow_is_discharge_less_charge() {
    let props = ZendureProperties {
        electric_level: Some(130),
        pack_input_power: Some(200),
        output_pack_power: Some(500),
        soc_status: Some(1),
        soc_limit: Some(1),
        ..Default::default()
    };
    let state = BatteryState::from_properties(&props, &ac2400_plus());
    assert_eq!(state.soc, Soc::new(100));
    assert_eq!(state.current_power, BatteryPower { w: -300 });
    assert_eq!(state.current_power.charging().get(), 300);
    assert_eq!(state.current_power.discharging().get(), 0);
    assert!(state.soc_calibrating);
    assert!(state.soc_limit_reached);
}

/// The discharge limit a device reports stands even above the rating.
#[test]
fn a_reported_discharge_limit_above_the_rating_stands() {
    let props = ZendureProperties { inverse_max_power: Some(5000), ..Default::default() };
    let state = BatteryState::from_properties(&props, &ac2400_plus());
    assert_eq!(state.max_discharge_power, PowerCap::new(5000));
}
