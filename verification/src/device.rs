//! What a device is, and what became of a command sent to one.

use vstd::prelude::*;

use crate::battery::BatteryState;
use crate::units::{DeciKelvin, PowerCap, Soc, Timestamp, WattHours, Watts};
use crate::world::DeviceId;

verus! {

/// A battery model's rated limits: what the hardware can do, as distinct from
/// what it currently reports it will accept.
#[derive(Debug, Clone, Copy, PartialEq, Eq, Structural)]
pub struct BatterySpec {
    pub max_charge_power: PowerCap,
    pub max_discharge_power: PowerCap,
}

/// Zendure solarFlow2400AC+: 2400 W in, and 800 W out, which is Germany's
/// feed-in limit.
#[verifier::allow_in_spec]
pub fn ac2400_plus() -> BatterySpec
    returns
        (BatterySpec {
            max_charge_power: PowerCap { watts: 2400 },
            max_discharge_power: PowerCap { watts: 800 },
        }),
{
    BatterySpec {
        max_charge_power: PowerCap { watts: 2400 },
        max_discharge_power: PowerCap { watts: 800 },
    }
}

/// Whether a command landed.
#[derive(Debug, Clone, Copy, PartialEq, Eq, Structural)]
pub enum Applied {
    Done,
    Error,
}

impl Applied {
    /// The journal's `outcome` column.
    pub open spec fn spec_str(self) -> Seq<char> {
        match self {
            Applied::Done => "ok"@,
            Applied::Error => "error"@,
        }
    }

    pub fn as_str(self) -> (out: &'static str)
        ensures
            out@ == self.spec_str(),
    {
        match self {
            Applied::Done => "ok",
            Applied::Error => "error",
        }
    }
}

/// Which path is driving the device: the objective's own decision, or the
/// failsafe standing everything down.
#[derive(Debug, Clone, Copy, PartialEq, Eq, Structural)]
pub enum ControlPath {
    Objective,
    Failsafe,
}

impl ControlPath {
    pub open spec fn spec_journal_kind(self) -> Seq<char> {
        match self {
            ControlPath::Objective => "decision"@,
            ControlPath::Failsafe => "failsafe"@,
        }
    }

    pub open spec fn spec_ok_status(self) -> Seq<char> {
        match self {
            ControlPath::Objective => "operational"@,
            ControlPath::Failsafe => "mqtt_timeout"@,
        }
    }

    pub open spec fn spec_err_status(self) -> Seq<char> {
        match self {
            ControlPath::Objective => "zendure_api_error"@,
            ControlPath::Failsafe => "mqtt_timeout_api_error"@,
        }
    }

    pub open spec fn spec_name(self) -> Seq<char> {
        match self {
            ControlPath::Objective => "decision"@,
            ControlPath::Failsafe => "failsafe idle"@,
        }
    }

    /// The journal's `kind` column.
    pub fn journal_kind(self) -> (out: &'static str)
        ensures
            out@ == self.spec_journal_kind(),
    {
        match self {
            ControlPath::Objective => "decision",
            ControlPath::Failsafe => "failsafe",
        }
    }

    /// Published when every device took its command.
    pub fn ok_status(self) -> (out: &'static str)
        ensures
            out@ == self.spec_ok_status(),
    {
        match self {
            ControlPath::Objective => "operational",
            ControlPath::Failsafe => "mqtt_timeout",
        }
    }

    /// Published instead when any device refused it.
    pub fn err_status(self) -> (out: &'static str)
        ensures
            out@ == self.spec_err_status(),
    {
        match self {
            ControlPath::Objective => "zendure_api_error",
            ControlPath::Failsafe => "mqtt_timeout_api_error",
        }
    }

    /// How the path reads in a log line.
    pub fn to_string(&self) -> (out: String)
        ensures
            out@ == self.spec_name(),
    {
        match self {
            ControlPath::Objective => "decision".to_owned(),
            ControlPath::Failsafe => "failsafe idle".to_owned(),
        }
    }
}

/// One command's fate, as recorded.
#[derive(Debug, PartialEq)]
pub struct Outcome {
    pub device: DeviceId,
    pub command: String,
    pub applied: Applied,
    pub error: Option<String>,
}

/// An [`Outcome`] as a mathematical value.
pub struct Fate {
    pub device: Seq<char>,
    pub command: Seq<char>,
    pub applied: Applied,
    pub error: Option<Seq<char>>,
}

impl View for Outcome {
    type V = Fate;

    open spec fn view(&self) -> Fate {
        Fate {
            device: self.device@,
            command: self.command@,
            applied: self.applied,
            error: match self.error {
                Some(e) => Some(e@),
                None => None,
            },
        }
    }
}

pub open spec fn fates(outcomes: Seq<Outcome>) -> Seq<Fate> {
    outcomes.map_values(|o: Outcome| o@)
}

/// Something that commands can be written to. Which device it is decides where
/// a command goes.
pub trait BatteryController {
    spec fn spec_id(&self) -> Seq<char>;

    /// Which device this adapter writes to.
    fn id(&self) -> (out: &DeviceId)
        ensures
            out@ == self.spec_id(),
    ;
}

/// Bytes exactly as they arrived, before anything parsed them.
#[derive(Debug, PartialEq, Eq)]
pub struct RawCapture {
    pub kind: &'static str,
    pub body: String,
}

/// One pack's temperature. Packs are counted as the device lists them.
#[derive(Debug, Clone, Copy, PartialEq, Eq, Structural)]
pub struct PackTemperature {
    pub index: usize,
    pub temp: DeciKelvin,
}

/// Everything a poll produces that no decision reads.
#[derive(Debug)]
pub struct BatteryTelemetry {
    pub charge: Watts,
    pub discharge: Watts,
    /// Absent when a report carried none: what was known before then stands.
    pub pack_capacities: Option<Vec<WattHours>>,
    pub pack_temps: Vec<PackTemperature>,
    pub enclosure_temp: Option<DeciKelvin>,
    pub min_soc: Option<Soc>,
}

/// One reading: what the controller decides on, and everything else a poll or
/// the startup handshake produced.
#[derive(Debug)]
pub struct BatteryReading {
    pub state: BatteryState,
    pub telemetry: BatteryTelemetry,
    pub raw: Option<RawCapture>,
}

/// A failure that still carries whatever bytes arrived.
#[derive(Debug)]
pub struct PollError {
    pub raw: Option<RawCapture>,
    pub error: String,
}

/// Something that a battery's state can be read from.
pub trait BatteryMonitor: Sized {
    spec fn rating(&self) -> BatterySpec;

    /// The rated limits of the box on the other end.
    fn spec(&self) -> (out: &BatterySpec)
        ensures
            *out == self.rating(),
    ;

    /// The startup handshake, and then the first reading.
    fn prepare(&mut self, now: Timestamp) -> Result<BatteryReading, PollError>;

    /// One reading.
    fn poll(&mut self, now: Timestamp) -> Result<BatteryReading, PollError>;
}

// --- laws ----------------------------------------------------------------------

/// What is published says which path drives the battery, and whether the battery
/// followed.
pub proof fn a_status_names_its_path(path: ControlPath)
    ensures
        path == ControlPath::Objective ==> {
            &&& path.spec_ok_status() == "operational"@
            &&& path.spec_err_status() == "zendure_api_error"@
            &&& path.spec_journal_kind() == "decision"@
            &&& path.spec_name() == "decision"@
        },
        path == ControlPath::Failsafe ==> {
            &&& path.spec_ok_status() == "mqtt_timeout"@
            &&& path.spec_err_status() == "mqtt_timeout_api_error"@
            &&& path.spec_journal_kind() == "failsafe"@
            &&& path.spec_name() == "failsafe idle"@
        },
{
}

} // verus!
