//! Turning one objective decision into commands per device.
//!
//! The objective decides what the house should do; allocation decides which
//! box does it.

use vstd::prelude::*;

use crate::command::{command_for, Command};
use crate::models::{ControlDecision, ControlMode, Decision};
use crate::text::before;
use crate::world::{battery_of, in_order, DeviceId, House, World};

verus! {

/// One command addressed to one device, tagged by device class.
#[derive(Debug, PartialEq, Eq)]
pub enum Directive {
    Battery { device: DeviceId, command: Command },
}

/// A [`Directive`] as a mathematical value.
pub struct Order {
    pub device: Seq<char>,
    pub command: Command,
}

impl View for Directive {
    type V = Order;

    open spec fn view(&self) -> Order {
        match *self {
            Directive::Battery { device, command } => Order { device: device@, command },
        }
    }
}

impl Order {
    /// How the order reads in the journal.
    pub open spec fn description(self) -> Seq<char> {
        self.command.spec_text()
    }
}

/// The views of a list of directives.
pub open spec fn orders(directives: Seq<Directive>) -> Seq<Order> {
    directives.map_values(|d: Directive| d@)
}

impl Directive {
    pub fn device(&self) -> (out: &DeviceId)
        ensures
            out@ == self@.device,
    {
        match self {
            Directive::Battery { device, .. } => device,
        }
    }

    /// How this reads in the journal and in a replay.
    pub fn describe(&self) -> (out: String)
        ensures
            out@ == self@.description(),
    {
        match self {
            Directive::Battery { command, .. } => command.to_string(),
        }
    }
}

/// Carries a whole-house figure, as charging and discharging do.
pub open spec fn has_magnitude(command: Command) -> bool {
    command is SetCharge || command is SetDischarge
}

/// The orders that carry a decision out. Standing down means the same to every
/// battery and reaches all of them, in the order of their identifiers. A
/// setpoint is a figure for the house, sized against the first battery, and
/// goes to that one alone.
pub open spec fn allocated(decision: Decision, house: House) -> Seq<Order> {
    let command = command_for(decision);
    if !has_magnitude(command) {
        Seq::new(house.devices.len(), |i: int| Order { device: house.devices[i].0, command })
    } else if house.devices.len() == 0 {
        Seq::empty()
    } else {
        seq![Order { device: house.devices[0].0, command }]
    }
}

/// Turns one objective decision into commands per device.
pub fn allocate(decision: &ControlDecision, world: &World) -> (out: Vec<Directive>)
    ensures
        orders(out@) == allocated(decision@, world@),
        in_order(world@.devices),
{
    let command = Command::from(decision);
    let batteries = world.batteries();
    let mut out: Vec<Directive> = Vec::new();
    match command {
        Command::SetIdle | Command::SetStandby => {
            for i in 0..batteries.len()
                invariant
                    command == command_for(decision@),
                    !has_magnitude(command),
                    batteries@.len() == world@.devices.len(),
                    forall|k: int|
                        #![trigger batteries@[k]]
                        0 <= k < batteries@.len() ==> batteries@[k].0@ == world@.devices[k].0,
                    orders(out@) == allocated(decision@, world@).take(i as int),
            {
                let ghost so_far = out@;
                let directive = Directive::Battery { device: batteries[i].0.clone(), command };
                out.push(directive);
                proof {
                    assert(orders(out@) =~= orders(so_far).push(directive@));
                    assert(allocated(decision@, world@).take(i + 1) =~= allocated(
                        decision@,
                        world@,
                    ).take(i as int).push(directive@));
                }
            }
            assert(orders(out@) =~= allocated(decision@, world@));
        },
        Command::SetCharge(_) | Command::SetDischarge(_) => {
            if batteries.len() > 0 {
                out.push(Directive::Battery { device: batteries[0].0.clone(), command });
            }
            assert(orders(out@) =~= allocated(decision@, world@));
        },
    }
    out
}

// --- laws ----------------------------------------------------------------------

/// Idle and standby reach every battery, each exactly once, in the order of
/// their identifiers.
pub proof fn standing_down_reaches_every_battery(decision: Decision, house: House, i: int, j: int)
    requires
        decision.mode == ControlMode::Idle || decision.mode == ControlMode::Standby,
        in_order(house.devices),
    ensures
        allocated(decision, house).len() == house.devices.len(),
        0 <= i < house.devices.len() ==> {
            &&& allocated(decision, house)[i].device == house.devices[i].0
            &&& allocated(decision, house)[i].command == command_for(decision)
        },
        0 <= i < j < house.devices.len() ==> before(
            allocated(decision, house)[i].device,
            allocated(decision, house)[j].device,
        ),
{
}

/// A setpoint goes to one battery: the one that the objective was sized
/// against, whose identifier comes before every other.
pub proof fn a_setpoint_goes_to_the_primary(decision: Decision, house: House, other: int)
    requires
        decision.mode == ControlMode::Charge || decision.mode == ControlMode::Discharge,
        house.devices.len() > 0,
        in_order(house.devices),
    ensures
        allocated(decision, house).len() == 1,
        allocated(decision, house)[0].device == house.devices[0].0,
        allocated(decision, house)[0].command == command_for(decision),
        house.battery() == Some(battery_of(house.devices[0].1)),
        0 < other < house.devices.len() ==> before(
            house.devices[0].0,
            house.devices[other].0,
        ),
{
}

/// A house without a battery is commanded nothing.
pub proof fn no_battery_is_commanded_nothing(decision: Decision, house: House)
    requires
        house.devices.len() == 0,
    ensures
        allocated(decision, house).len() == 0,
{
}

/// A decision reaches the batteries in its own words: a setpoint with its power, to
/// the first battery alone, and standing down to all of them alike.
pub proof fn a_decision_reaches_the_batteries(decision: Decision, house: House, i: int)
    requires
        0 <= i < house.devices.len(),
    ensures
        decision.mode == ControlMode::Charge ==> allocated(decision, house) == seq![
            Order { device: house.devices[0].0, command: Command::SetCharge(decision.power) },
        ],
        decision.mode == ControlMode::Discharge ==> allocated(decision, house) == seq![
            Order { device: house.devices[0].0, command: Command::SetDischarge(decision.power) },
        ],
        decision.mode == ControlMode::Idle ==> allocated(decision, house).len()
            == house.devices.len() && allocated(decision, house)[i] == (Order {
            device: house.devices[i].0,
            command: Command::SetIdle,
        }),
        decision.mode == ControlMode::Standby ==> allocated(decision, house).len()
            == house.devices.len() && allocated(decision, house)[i] == (Order {
            device: house.devices[i].0,
            command: Command::SetStandby,
        }),
{
}

} // verus!
