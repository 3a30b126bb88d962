//! What the device reports, and what the controller decides.

use vstd::prelude::*;

use crate::units::{GridPower, Register, Setpoint};

verus! {

/// What a smart meter reports that the estimator reads: the energy that was
/// drawn from the grid, and the energy that was fed into it.
#[derive(Debug, PartialEq)]
pub struct MeterReading {
    pub device_id: String,
    pub consumption_total_kwh: Register,
    pub production_total_kwh: Register,
}

// --- device reports ------------------------------------------------------------

/// A full report from the device.
#[derive(Debug)]
pub struct ZendureReport {
    /// Unix timestamp from the device.
    pub timestamp: Option<u64>,
    /// Incrementing message counter.
    pub message_id: Option<u64>,
    /// Device serial number.
    pub sn: Option<String>,
    /// API version.
    pub version: Option<u64>,
    /// Product identifier.
    pub product: Option<String>,
    /// All device properties.
    pub properties: ZendureProperties,
    /// Data per battery pack.
    pub pack_data: Option<Vec<PackData>>,
}

/// Device properties. Every field is optional: the device may omit any.
#[derive(Debug, Clone, Copy)]
pub struct ZendureProperties {
    /// Battery state of charge (%) - 0-100
    pub electric_level: Option<u32>,
    /// Battery discharge power (W)
    pub pack_input_power: Option<u32>,
    /// Battery charge power (W)
    pub output_pack_power: Option<u32>,
    /// Power output to home (W)
    pub output_home_power: Option<u32>,
    /// Grid input power (W)
    pub grid_input_power: Option<u32>,
    /// Total solar/PV input power (W)
    pub solar_input_power: Option<u32>,
    /// PV channel 1 power (W)
    pub solar_power1: Option<u32>,
    /// PV channel 2 power (W)
    pub solar_power2: Option<u32>,
    /// PV channel 3 power (W)
    pub solar_power3: Option<u32>,
    /// PV channel 4 power (W)
    pub solar_power4: Option<u32>,
    /// Battery pack state: 0=idle, 1=charging, 2=discharging
    pub pack_state: Option<u32>,
    /// Grid connection state: 0=disconnected, 1=connected
    pub grid_state: Option<u32>,
    /// AC inverter status: 0=off, 1=on, 2=standby
    pub ac_status: Option<u32>,
    /// AC mode (RW): 1=charge, 2=discharge
    pub ac_mode: Option<u32>,
    /// AC charging power limit (W) (RW)
    pub input_limit: Option<u32>,
    /// Device output power limit (W) (RW)
    pub output_limit: Option<u32>,
    /// Target SOC in tenths of % (RW) - e.g. 1000 = 100.0%, range 700-1000
    pub soc_set: Option<u32>,
    /// Minimum SOC in tenths of % (RW) - e.g. 100 = 10.0%, range 0-500
    pub min_soc: Option<u32>,
    /// Maximum inverter output power (W) (RW) - e.g. 800
    pub inverse_max_power: Option<u32>,
    /// Reverse flow control (RW): 0=off, 1=on, 2=auto
    pub grid_reverse: Option<u32>,
    /// Grid standard (RW): 0=Germany, 1=UK, ..., 9=Italy
    pub grid_standard: Option<u32>,
    /// Maximum charge power capability (W) - e.g. 2400
    pub charge_max_limit: Option<u32>,
    /// Number of connected battery packs
    pub pack_num: Option<u32>,
    /// WiFi signal strength (dBm), e.g. -71
    pub rssi: Option<i32>,
    /// Enclosure temperature in tenths of Kelvin - e.g. 3001 = 300.1K about 27 degrees Celsius
    pub hyper_tmp: Option<u32>,
    /// Pass-through state: 0=off, 1=on
    pub pass: Option<u32>,
    /// Reverse flow state: 0=off, 1=on
    pub reverse_state: Option<u32>,
    /// Remaining discharge time (minutes)
    pub remain_out_time: Option<u32>,
    /// SOC calibration state: 0=not calibrating, 1=calibrating
    pub soc_status: Option<u32>,
    /// DC state: 0=off, 1=on, 2=standby
    pub dc_status: Option<u32>,
    /// PV input state: 0=off, 1=on
    pub pv_status: Option<u32>,
    /// Data ready flag: 0=not ready, 1=ready
    pub data_ready: Option<u32>,
    /// Fault severity level (0=none)
    pub fault_level: Option<u32>,
    /// Error flag: 0=no error, 1=error
    pub is_error: Option<u32>,
    /// Off-grid output power (W)
    pub grid_off_power: Option<u32>,
    /// Off-grid mode (RW): 0=standard, 1=economic, 2=off
    pub grid_off_mode: Option<u32>,
    /// LED lamp state: 0=off, 1=on
    pub lamp_switch: Option<u32>,
    /// Smart/flash write mode (RW): 0=off, 1=on
    pub smart_mode: Option<u32>,
    /// Phase switch setting
    pub phase_switch: Option<u32>,
    /// Battery calibration time (minutes) (RW)
    pub bat_cal_time: Option<u32>,
    /// AC coupling state bitmask
    pub ac_coupling_state: Option<u32>,
    /// Dry contact relay state: 0=open, 1=closed
    pub dry_node_state: Option<u32>,
    /// Off-grid state: 0=grid-tied, 1=off-grid
    pub off_grid_state: Option<u32>,
    /// Battery voltage in hundredths of V - e.g. 4929 = 49.29V
    pub bat_volt: Option<u32>,
    /// Fan control (RW): 0=off, 1=on
    pub fan_mode: Option<u32>,
    /// Fan speed (RW): 0=auto, 1=low, 2=high
    pub fan_speed_setting: Option<u32>,
    /// IoT cloud connection state
    pub iot_state: Option<u32>,
    /// LCN (local communication network) state
    pub lcn_state: Option<u32>,
    /// OTA firmware update state
    pub ota_state: Option<u32>,
    /// Voltage-based wakeup setting
    pub volt_wakeup: Option<u32>,
    /// Firmware voltage activation threshold (V)
    pub fm_volt: Option<u32>,
    /// SOC limit state: 0=normal, 1=charge limit reached, 2=discharge limit reached
    pub soc_limit: Option<u32>,
}

impl Default for ZendureProperties {
    /// A report that says nothing.
    fn default() -> (out: Self)
        ensures
            out.electric_level is None,
            out.pack_input_power is None,
            out.output_pack_power is None,
            out.output_home_power is None,
            out.grid_input_power is None,
            out.solar_input_power is None,
            out.solar_power1 is None,
            out.solar_power2 is None,
            out.solar_power3 is None,
            out.solar_power4 is None,
            out.pack_state is None,
            out.grid_state is None,
            out.ac_status is None,
            out.ac_mode is None,
            out.input_limit is None,
            out.output_limit is None,
            out.soc_set is None,
            out.min_soc is None,
            out.inverse_max_power is None,
            out.grid_reverse is None,
            out.grid_standard is None,
            out.charge_max_limit is None,
            out.pack_num is None,
            out.rssi is None,
            out.hyper_tmp is None,
            out.pass is None,
            out.reverse_state is None,
            out.remain_out_time is None,
            out.soc_status is None,
            out.dc_status is None,
            out.pv_status is None,
            out.data_ready is None,
            out.fault_level is None,
            out.is_error is None,
            out.grid_off_power is None,
            out.grid_off_mode is None,
            out.lamp_switch is None,
            out.smart_mode is None,
            out.phase_switch is None,
            out.bat_cal_time is None,
            out.ac_coupling_state is None,
            out.dry_node_state is None,
            out.off_grid_state is None,
            out.bat_volt is None,
            out.fan_mode is None,
            out.fan_speed_setting is None,
            out.iot_state is None,
            out.lcn_state is None,
            out.ota_state is None,
            out.volt_wakeup is None,
            out.fm_volt is None,
            out.soc_limit is None,
    {
        ZendureProperties {
            electric_level: None,
            pack_input_power: None,
            output_pack_power: None,
            output_home_power: None,
            grid_input_power: None,
            solar_input_power: None,
            solar_power1: None,
            solar_power2: None,
            solar_power3: None,
            solar_power4: None,
            pack_state: None,
            grid_state: None,
            ac_status: None,
            ac_mode: None,
            input_limit: None,
            output_limit: None,
            soc_set: None,
            min_soc: None,
            inverse_max_power: None,
            grid_reverse: None,
            grid_standard: None,
            charge_max_limit: None,
            pack_num: None,
            rssi: None,
            hyper_tmp: None,
            pass: None,
            reverse_state: None,
            remain_out_time: None,
            soc_status: None,
            dc_status: None,
            pv_status: None,
            data_ready: None,
            fault_level: None,
            is_error: None,
            grid_off_power: None,
            grid_off_mode: None,
            lamp_switch: None,
            smart_mode: None,
            phase_switch: None,
            bat_cal_time: None,
            ac_coupling_state: None,
            dry_node_state: None,
            off_grid_state: None,
            bat_volt: None,
            fan_mode: None,
            fan_speed_setting: None,
            iot_state: None,
            lcn_state: None,
            ota_state: None,
            volt_wakeup: None,
            fm_volt: None,
            soc_limit: None,
        }
    }
}

/// Data per battery pack.
#[derive(Debug)]
pub struct PackData {
    /// Battery pack serial number
    pub sn: Option<String>,
    /// Pack type identifier (e.g. 500)
    pub pack_type: Option<u32>,
    /// Pack state of charge (%) - 0-100
    pub soc_level: Option<u32>,
    /// Pack state: 0=idle, 1=charging, 2=discharging
    pub state: Option<u32>,
    /// Pack power (W), signed
    pub power: Option<i32>,
    /// Maximum cell temperature in tenths of Kelvin - e.g. 3001 = 27 degrees Celsius
    pub max_temp: Option<u32>,
    /// Total pack voltage in hundredths of V - e.g. 4930 = 49.30V
    pub total_vol: Option<u32>,
    /// Battery current (A), 16-bit two's complement
    pub batcur: Option<i32>,
    /// Maximum individual cell voltage in hundredths of V
    pub max_vol: Option<u32>,
    /// Minimum individual cell voltage in hundredths of V
    pub min_vol: Option<u32>,
    /// Firmware version number
    pub soft_version: Option<u32>,
}

/// Battery storage mode: flash saves idle power but wakes slowly.
#[derive(Debug, Clone, Copy, PartialEq, Eq, Structural)]
pub enum StorageMode {
    /// Active, ready for charge and discharge commands.
    Ram,
    /// Low-power standby.
    Flash,
}

// --- decisions -----------------------------------------------------------------

/// What the controller wants the battery to do.
#[derive(Debug, Clone, Copy, PartialEq, Eq, Structural)]
pub enum ControlMode {
    Charge,
    Discharge,
    Idle,
    Standby,
}

impl ControlMode {
    pub open spec fn spec_name(self) -> Seq<char> {
        match self {
            ControlMode::Charge => "charge"@,
            ControlMode::Discharge => "discharge"@,
            ControlMode::Idle => "idle"@,
            ControlMode::Standby => "standby"@,
        }
    }

    pub fn as_str(self) -> (out: &'static str)
        ensures
            out@ == self.spec_name(),
    {
        match self {
            ControlMode::Charge => "charge",
            ControlMode::Discharge => "discharge",
            ControlMode::Idle => "idle",
            ControlMode::Standby => "standby",
        }
    }

    pub fn to_string(&self) -> (out: String)
        ensures
            out@ == self.spec_name(),
    {
        self.as_str().to_owned()
    }
}

/// Daily cycle counters, published for monitoring relay toggling.
#[derive(Debug, Clone, Copy, PartialEq, Eq, Structural)]
pub struct CycleCounts {
    /// Mode transitions today.
    pub daily_transitions: u32,
    /// Times the cooldown suppressed a charge/discharge toggle today.
    pub daily_cooldown_suppressions: u32,
}

/// Output of the controller.
#[derive(Debug, PartialEq)]
pub struct ControlDecision {
    pub mode: ControlMode,
    /// Target power. Never negative: `mode` carries the direction.
    pub power_watts: Setpoint,
    /// Why this decision was made, for a human.
    pub reason: String,
    /// Net grid power at the time of the decision.
    pub grid_power: GridPower,
}

/// A [`ControlDecision`] as a mathematical value.
pub struct Decision {
    pub mode: ControlMode,
    pub power: Setpoint,
    pub reason: Seq<char>,
    pub grid: GridPower,
}

impl View for ControlDecision {
    type V = Decision;

    open spec fn view(&self) -> Decision {
        Decision {
            mode: self.mode,
            power: self.power_watts,
            reason: self.reason@,
            grid: self.grid_power,
        }
    }
}

/// A mode is called by its name.
pub proof fn a_mode_is_called_by_its_name(mode: ControlMode)
    ensures
        mode == ControlMode::Charge ==> mode.spec_name() == "charge"@,
        mode == ControlMode::Discharge ==> mode.spec_name() == "discharge"@,
        mode == ControlMode::Idle ==> mode.spec_name() == "idle"@,
        mode == ControlMode::Standby ==> mode.spec_name() == "standby"@,
{
}

} // verus!
