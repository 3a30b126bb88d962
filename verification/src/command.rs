//! What is sent to a device.

use vstd::prelude::*;
use vstd::std_specs::convert::FromSpecImpl;

use crate::models::{ControlDecision, ControlMode, Decision};
use crate::text;
use crate::text::decimal;
use crate::units::Setpoint;

verus! {

/// What the controller wants sent to the device, apart from the decision that
/// produced it.
#[derive(Debug, Clone, Copy, PartialEq, Eq, Structural)]
pub enum Command {
    SetCharge(Setpoint),
    SetDischarge(Setpoint),
    SetIdle,
    SetStandby,
}

/// The command that carries a decision out.
pub open spec fn command_for(decision: Decision) -> Command {
    match decision.mode {
        ControlMode::Charge => Command::SetCharge(decision.power),
        ControlMode::Discharge => Command::SetDischarge(decision.power),
        ControlMode::Idle => Command::SetIdle,
        ControlMode::Standby => Command::SetStandby,
    }
}

impl From<&ControlDecision> for Command {
    fn from(decision: &ControlDecision) -> (out: Self) {
        match decision.mode {
            ControlMode::Charge => Command::SetCharge(decision.power_watts),
            ControlMode::Discharge => Command::SetDischarge(decision.power_watts),
            ControlMode::Idle => Command::SetIdle,
            ControlMode::Standby => Command::SetStandby,
        }
    }
}

impl FromSpecImpl<&ControlDecision> for Command {
    open spec fn obeys_from_spec() -> bool {
        true
    }

    open spec fn from_spec(decision: &ControlDecision) -> Self {
        command_for(decision@)
    }
}

impl Command {
    /// How the command reads in the journal.
    pub open spec fn spec_text(self) -> Seq<char> {
        match self {
            Command::SetCharge(w) => "set_charge("@ + decimal(w.watts as nat) + "W)"@,
            Command::SetDischarge(w) => "set_discharge("@ + decimal(w.watts as nat) + "W)"@,
            Command::SetIdle => "set_idle"@,
            Command::SetStandby => "set_standby"@,
        }
    }

    pub fn to_string(&self) -> (out: String)
        ensures
            out@ == self.spec_text(),
    {
        match self {
            Command::SetCharge(w) => {
                let mut out = "set_charge(".to_owned();
                text::push_decimal(&mut out, w.watts as u128);
                out.append("W)");
                out
            },
            Command::SetDischarge(w) => {
                let mut out = "set_discharge(".to_owned();
                text::push_decimal(&mut out, w.watts as u128);
                out.append("W)");
                out
            },
            Command::SetIdle => "set_idle".to_owned(),
            Command::SetStandby => "set_standby".to_owned(),
        }
    }
}

// --- laws ----------------------------------------------------------------------

/// A decision is carried out in its own direction and with its own power, and
/// standing down carries none.
pub proof fn a_command_says_what_was_decided(decision: Decision)
    ensures
        decision.mode == ControlMode::Charge <==> command_for(decision) is SetCharge,
        decision.mode == ControlMode::Discharge <==> command_for(decision) is SetDischarge,
        decision.mode == ControlMode::Idle <==> command_for(decision) is SetIdle,
        decision.mode == ControlMode::Standby <==> command_for(decision) is SetStandby,
        command_for(decision) matches Command::SetCharge(w) ==> w == decision.power,
        command_for(decision) matches Command::SetDischarge(w) ==> w == decision.power,
{
}

/// A command reads as its name, and with the watts that it carries in brackets.
pub proof fn a_command_reads_as_what_it_does(w: Setpoint)
    ensures
        Command::SetCharge(w).spec_text() == "set_charge("@ + decimal(w.watts as nat) + "W)"@,
        Command::SetDischarge(w).spec_text() == "set_discharge("@ + decimal(w.watts as nat)
            + "W)"@,
        Command::SetIdle.spec_text() == "set_idle"@,
        Command::SetStandby.spec_text() == "set_standby"@,
{
}

} // verus!
