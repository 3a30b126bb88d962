//! A battery's state, as the controller reads it.

use vstd::prelude::*;

use crate::device::BatterySpec;
use crate::models::ZendureProperties;
use crate::units::{saturated_i32, BatteryPower, PowerCap, Soc, Watts};

verus! {

/// Current battery state, used by the controller to make decisions.
#[derive(Debug, Clone, Copy, PartialEq, Eq, Structural)]
pub struct BatteryState {
    pub soc: Soc,
    /// Maximum discharge power.
    pub max_discharge_power: PowerCap,
    /// Maximum charge power.
    pub max_charge_power: PowerCap,
    /// Current output power. Positive while discharging, negative while charging.
    pub current_power: BatteryPower,
    pub soc_calibrating: bool,
    /// The battery reports that it has reached its SOC limit and refuses charging.
    pub soc_limit_reached: bool,
    /// The device reports `isError`. `faultLevel` is deliberately ignored: it
    /// also goes non-zero for benign hiccups.
    pub fault: bool,
}

/// A reported figure, or `absent` where the device left it out.
pub open spec fn reported(field: Option<u32>, absent: int) -> int {
    match field {
        Some(n) => n as int,
        None => absent,
    }
}

impl BatteryState {
    /// What a report says about the battery. The reported discharge limit is
    /// authoritative, zero included; the charge limit is honoured up to the
    /// rating. A limit that is absent falls back to the rating.
    pub fn from_properties(props: &ZendureProperties, spec: &BatterySpec) -> (out: Self)
        ensures
            out.soc@ == if reported(props.electric_level, 0) > 100 {
                100
            } else {
                reported(props.electric_level, 0)
            },
            out.max_discharge_power.watts == reported(
                props.inverse_max_power,
                spec.max_discharge_power.watts as int,
            ),
            out.max_charge_power.watts == if reported(
                props.charge_max_limit,
                spec.max_charge_power.watts as int,
            ) < spec.max_charge_power.watts {
                reported(props.charge_max_limit, spec.max_charge_power.watts as int)
            } else {
                spec.max_charge_power.watts as int
            },
            out.current_power.w == saturated_i32(reported(props.pack_input_power, 0))
                - saturated_i32(reported(props.output_pack_power, 0)),
            out.soc_calibrating == (props.soc_status == Some(1u32)),
            out.soc_limit_reached == (props.soc_limit == Some(1u32)),
            out.fault == (reported(props.is_error, 0) != 0),
    {
        let discharge = Watts::from_device(props.pack_input_power.unwrap_or(0));
        let charge = Watts::from_device(props.output_pack_power.unwrap_or(0));
        let max_discharge_power = match props.inverse_max_power {
            Some(watts) => PowerCap::new(watts),
            None => spec.max_discharge_power,
        };
        let charge_limit = match props.charge_max_limit {
            Some(watts) => PowerCap::new(watts),
            None => spec.max_charge_power,
        };
        BatteryState {
            soc: Soc::new(props.electric_level.unwrap_or(0)),
            max_discharge_power,
            max_charge_power: spec.max_charge_power.tighter(charge_limit),
            current_power: BatteryPower::from_flows(discharge, charge),
            soc_calibrating: props.soc_status == Some(1),
            soc_limit_reached: props.soc_limit == Some(1),
            fault: props.is_error.unwrap_or(0) != 0,
        }
    }
}

// --- laws ----------------------------------------------------------------------

/// What a report says of a battery: power out of the packs counts as discharging
/// and power into them as charging, the charge is that of the whole box, limits are
/// those reported, each for its own direction and the charge never above the
/// rating, and every flag is its own.
pub proof fn a_report_describes_its_battery(
    props: ZendureProperties,
    spec: BatterySpec,
    out: BatteryState,
)
    requires
        call_ensures(BatteryState::from_properties, (&props, &spec), out),
    ensures
        props.pack_input_power matches Some(given) ==> given <= i32::MAX ==> (
        props.output_pack_power is None || props.output_pack_power == Some(0u32))
            ==> out.current_power.w == given,
        props.output_pack_power matches Some(taken) ==> taken <= i32::MAX ==> (
        props.pack_input_power is None || props.pack_input_power == Some(0u32))
            ==> out.current_power.w == -taken,
        props.electric_level matches Some(level) ==> level <= 100 ==> out.soc@ == level,
        props.electric_level is None ==> out.soc@ == 0,
        props.inverse_max_power matches Some(limit) ==> out.max_discharge_power.watts == limit,
        props.inverse_max_power is None ==> out.max_discharge_power == spec.max_discharge_power,
        props.charge_max_limit matches Some(limit) ==> out.max_charge_power.watts <= limit
            && out.max_charge_power.watts <= spec.max_charge_power.watts && (
        out.max_charge_power.watts == limit || out.max_charge_power.watts
            == spec.max_charge_power.watts),
        props.charge_max_limit is None ==> out.max_charge_power == spec.max_charge_power,
        out.soc_calibrating <==> props.soc_status == Some(1u32),
        out.soc_limit_reached <==> props.soc_limit == Some(1u32),
        out.fault <==> props.is_error is Some && props.is_error != Some(0u32),
{
}

} // verus!
