//! Settings, and how a configuration file gives them.

use vstd::prelude::*;

use crate::address::IpAddress;
use crate::clock::Weekday;
use crate::prediction::TimeOfDay;
use crate::setting::{
    accept, balance_day_of, count_of, days_of, demand, fault, find_finite_milli, find_milli,
    finite_milli, first, has_section, ip_of, kept, lenient, look, milli_value, open_section,
    optional, path_of, read_address, read_balance_day, read_count, read_days, read_path, read_text,
    read_threshold, read_timezone, read_watts, required, section_problem, setting, text_of,
    threshold_of, timezone_of, warned, watts_of, Reading, Table,
};
use crate::text;
use crate::text::{decimal, in_full, joined, quoted, signed, views};
use crate::toml_tree;
use crate::toml_tree::{
    entries_of, find, get, items_of, toml_of, tree_is_its_parts, Toml, Tree,
};
use crate::units::{
    saturate_i64, saturated_i64, Duration, Efficiency, GridPower, PowerMargin, RetentionDays, Soc,
    SolarPower, WattHours, Watts,
};

verus! {

/// Where the journal is kept, unless the configuration says otherwise.
pub const DEFAULT_JOURNAL_PATH: &'static str = "/var/lib/zendure/journal.db";

/// Where the measured efficiency is kept across restarts.
pub const DEFAULT_RTE_STATE_PATH: &'static str = "/var/lib/zendure/rte_state.json";

/// Where the configuration is looked for.
pub const DEFAULT_CONFIG_PATH: &'static str = "/etc/zendure/config.toml";

/// The tuning that a session decides with: every setting a decision reads, and
/// nothing that says how to reach a device.
#[derive(Debug, Clone, Copy, PartialEq, Eq, Structural)]
pub struct SessionConfig {
    pub charge_margin: PowerMargin,
    pub discharge_margin: PowerMargin,
    pub charge_start_threshold: GridPower,
    pub discharge_start_threshold: GridPower,
    pub min_mode_duration_secs: u64,
    pub min_decision_interval_secs: u64,
    pub idle_timeout_secs: u64,
    pub min_idle_before_discharge_secs: u64,
    pub cycle_warn_threshold: u32,
    pub min_soc: Soc,
    pub max_soc: Soc,
    pub balance_weekday: Option<Weekday>,
    pub solar_discharge_block_threshold: SolarPower,
    pub mqtt_timeout_secs: u64,
}

/// The broker. Its presence in the file, not a flag inside it, is what selects
/// it.
#[derive(PartialEq)]
pub struct MqttConfig {
    pub host: String,
    pub port: u16,
    pub username: Option<String>,
    pub password: Option<String>,
    pub client_id: String,
}

/// A single battery.
#[derive(Debug, PartialEq)]
pub enum DeviceConfig {
    Zendure { ip: String, sn: String, poll_interval: Duration },
    /// A simulated battery. Its rating is a fact about the one model that is
    /// simulated, and no setting.
    Virtual {
        id: String,
        packs: Vec<WattHours>,
        soc: Soc,
        charge_efficiency: Efficiency,
        discharge_efficiency: Efficiency,
    },
}

/// Which of the three phases the solar inverter feeds.
#[derive(Debug, Clone, Copy, PartialEq, Eq, Structural)]
pub enum SolarPhase {
    A,
    B,
    C,
}

/// The grid meter, read over the broker.
#[derive(Debug, PartialEq)]
pub struct ShellyConfig {
    pub topic: String,
    pub solar_phase: SolarPhase,
}

/// Where the dashboard is served.
#[derive(Debug, Clone, Copy, PartialEq, Eq, Structural)]
pub struct WebConfig {
    pub bind_address: IpAddress,
    pub port: u16,
}

/// Which meter feeds the engine its grid readings.
#[derive(Debug, Clone, Copy, PartialEq, Eq, Structural)]
pub enum MeterConfig {
    Shelly,
    Synthetic { base_load: Watts, solar_peak: Watts },
}

/// Where forecasts come from, and when to ask for one.
#[derive(PartialEq)]
pub enum PredictionConfig {
    Solcast {
        api_key: String,
        site_east: String,
        site_west: String,
        state_path: String,
        poll_times: Vec<TimeOfDay>,
    },
    /// Made up, with no network and no quota behind it.
    Simulated { state_path: String, poll_times: Vec<TimeOfDay> },
}

impl PredictionConfig {
    pub fn state_path(&self) -> (out: &str)
        ensures
            out@ == match *self {
                PredictionConfig::Solcast { state_path, .. } => state_path@,
                PredictionConfig::Simulated { state_path, .. } => state_path@,
            },
    {
        match self {
            PredictionConfig::Solcast { state_path, .. } => state_path.as_str(),
            PredictionConfig::Simulated { state_path, .. } => state_path.as_str(),
        }
    }

    pub fn poll_times(&self) -> (out: &Vec<TimeOfDay>)
        ensures
            *out == match *self {
                PredictionConfig::Solcast { poll_times, .. } => poll_times,
                PredictionConfig::Simulated { poll_times, .. } => poll_times,
            },
    {
        match self {
            PredictionConfig::Solcast { poll_times, .. } => poll_times,
            PredictionConfig::Simulated { poll_times, .. } => poll_times,
        }
    }
}

#[derive(PartialEq)]
pub struct Config {
    pub mqtt: Option<MqttConfig>,
    pub device: DeviceConfig,
    pub shelly: Option<ShellyConfig>,
    pub meter: MeterConfig,
    pub web: Option<WebConfig>,
    pub ha_publish_prefix: String,
    /// Safety margin taken off the charge power, to avoid import.
    pub charge_margin: PowerMargin,
    /// Safety margin taken off the discharge power.
    pub discharge_margin: PowerMargin,
    /// Grid power below this starts charging.
    pub charge_start_threshold: GridPower,
    /// Grid power above this starts discharging.
    pub discharge_start_threshold: GridPower,
    /// Minimum time before a swing between charging and discharging.
    pub min_mode_duration: Duration,
    /// Minimum time between decisions.
    pub min_decision_interval: Duration,
    /// Idle time before standby.
    pub idle_timeout: Duration,
    /// Daily transitions that force standby. Zero turns the limit off.
    pub cycle_warn_threshold: u32,
    /// Charge at or below which discharging is blocked.
    pub min_soc: Soc,
    /// Charge at or above which charging is blocked.
    pub max_soc: Soc,
    /// Weekday on which the battery may be charged in full.
    pub balance_weekday: Option<Weekday>,
    /// Solar production at or above which discharging is blocked. Zero turns
    /// the guard off.
    pub solar_discharge_block_threshold: SolarPower,
    /// Minimum idle time between a charge and a discharge.
    pub min_idle_before_discharge: Duration,
    /// IANA timezone.
    pub timezone: String,
    /// Time without meter readings before everything is stood down.
    pub mqtt_timeout: Duration,
    pub journal_path: String,
    pub journal_retention_days: RetentionDays,
    pub rte_state_path: String,
    pub log_filter: String,
}

// --- one value at a time -------------------------------------------------------

pub open spec fn texts(root: Table, section: Seq<char>, key: Seq<char>) -> Option<
    Reading<Seq<char>>,
> {
    match setting(root, section, key) {
        Some(tree) => Some(read_text(tree)),
        None => None,
    }
}

pub open spec fn counts(root: Table, section: Seq<char>, key: Seq<char>, most: int) -> Option<
    Reading<int>,
> {
    match setting(root, section, key) {
        Some(tree) => Some(read_count(tree, most)),
        None => None,
    }
}

pub open spec fn paths(root: Table, section: Seq<char>, key: Seq<char>) -> Option<
    Reading<Seq<char>>,
> {
    match setting(root, section, key) {
        Some(tree) => Some(read_path(tree)),
        None => None,
    }
}

/// A threshold, where one that is no number counts as `nan`.
pub open spec fn thresholds(root: Table, section: Seq<char>, key: Seq<char>, nan: int) -> Option<
    Reading<int>,
> {
    match setting(root, section, key) {
        Some(tree) => Some(read_threshold(tree, nan)),
        None => None,
    }
}

pub open spec fn all_watts(root: Table, section: Seq<char>, key: Seq<char>) -> Option<
    Reading<int>,
> {
    match setting(root, section, key) {
        Some(tree) => Some(read_watts(tree)),
        None => None,
    }
}

pub open spec fn all_days(root: Table, section: Seq<char>, key: Seq<char>) -> Option<
    Reading<int>,
> {
    match setting(root, section, key) {
        Some(tree) => Some(read_days(tree)),
        None => None,
    }
}

pub open spec fn balance_days(root: Table, section: Seq<char>, key: Seq<char>) -> Option<
    Reading<Option<Weekday>>,
> {
    match setting(root, section, key) {
        Some(tree) => Some(read_balance_day(tree)),
        None => None,
    }
}

pub open spec fn timezones(root: Table, section: Seq<char>, key: Seq<char>) -> Option<
    Reading<Seq<char>>,
> {
    match setting(root, section, key) {
        Some(tree) => Some(read_timezone(tree)),
        None => None,
    }
}

pub open spec fn addresses(root: Table, section: Seq<char>, key: Seq<char>) -> Option<
    Reading<IpAddress>,
> {
    match setting(root, section, key) {
        Some(tree) => Some(read_address(tree)),
        None => None,
    }
}

pub open spec fn phases(root: Table, section: Seq<char>, key: Seq<char>) -> Option<
    Reading<SolarPhase>,
> {
    match setting(root, section, key) {
        Some(tree) => Some(read_phase(tree)),
        None => None,
    }
}

pub open spec fn read_phase(tree: Tree) -> Reading<SolarPhase> {
    match tree {
        Tree::Text(s) => if s == "A"@ || s == "a"@ {
            Ok(SolarPhase::A)
        } else if s == "B"@ || s == "b"@ {
            Ok(SolarPhase::B)
        } else if s == "C"@ || s == "c"@ {
            Ok(SolarPhase::C)
        } else {
            Err("must be one of A, B, C"@)
        },
        other => Err("must be one of A, B, C"@),
    }
}

fn phase_of(toml: &Toml) -> (out: Result<SolarPhase, String>)
    ensures
        crate::setting::plain(out) == read_phase(toml.tree()),
{
    if let Toml::Text(s) = toml {
        if text::same(s.as_str(), "A") || text::same(s.as_str(), "a") {
            return Ok(SolarPhase::A);
        }
        if text::same(s.as_str(), "B") || text::same(s.as_str(), "b") {
            return Ok(SolarPhase::B);
        }
        if text::same(s.as_str(), "C") || text::same(s.as_str(), "c") {
            return Ok(SolarPhase::C);
        }
    }
    Err("must be one of A, B, C".to_owned())
}

/// What a section holds, as [`setting`] sees it.
spec fn in_section(section: Option<&Vec<(String, Toml)>>, key: Seq<char>) -> Option<Tree> {
    match section {
        Some(table) => find(entries_of(table@), key),
        None => None,
    }
}

fn read_text_at(section: Option<&Vec<(String, Toml)>>, key: &str) -> (out: Option<
    Result<String, String>,
>)
    ensures
        match in_section(section, key@) {
            Some(tree) => out matches Some(r) && crate::setting::seen(r) == read_text(tree),
            None => out is None,
        },
{
    match look(section, key) {
        Some(toml) => Some(text_of(toml)),
        None => None,
    }
}

fn read_count_at(section: Option<&Vec<(String, Toml)>>, key: &str, most: u64) -> (out: Option<
    Result<u64, String>,
>)
    ensures
        match in_section(section, key@) {
            Some(tree) => match out {
                Some(Ok(n)) => read_count(tree, most as int) == Ok::<int, Seq<char>>(n as int)
                    && n <= most,
                Some(Err(e)) => read_count(tree, most as int) == Err::<int, Seq<char>>(e@),
                None => false,
            },
            None => out is None,
        },
{
    match look(section, key) {
        Some(toml) => Some(count_of(toml, most)),
        None => None,
    }
}

fn read_threshold_at(section: Option<&Vec<(String, Toml)>>, key: &str, nan: i64) -> (out: Option<
    Result<i64, String>,
>)
    ensures
        match in_section(section, key@) {
            Some(tree) => match out {
                Some(Ok(n)) => read_threshold(tree, nan as int) == Ok::<int, Seq<char>>(n as int),
                Some(Err(e)) => read_threshold(tree, nan as int) == Err::<int, Seq<char>>(e@),
                None => false,
            },
            None => out is None,
        },
{
    match look(section, key) {
        Some(toml) => Some(threshold_of(toml, nan)),
        None => None,
    }
}

fn read_watts_at(section: Option<&Vec<(String, Toml)>>, key: &str) -> (out: Option<
    Result<i32, String>,
>)
    ensures
        match in_section(section, key@) {
            Some(tree) => match out {
                Some(Ok(n)) => read_watts(tree) == Ok::<int, Seq<char>>(n as int),
                Some(Err(e)) => read_watts(tree) == Err::<int, Seq<char>>(e@),
                None => false,
            },
            None => out is None,
        },
{
    match look(section, key) {
        Some(toml) => Some(watts_of(toml)),
        None => None,
    }
}

fn read_day_at(section: Option<&Vec<(String, Toml)>>, key: &str) -> (out: Option<
    Result<Option<Weekday>, String>,
>)
    ensures
        match in_section(section, key@) {
            Some(tree) => out matches Some(r) && crate::setting::plain(r) == read_balance_day(
                tree,
            ),
            None => out is None,
        },
{
    match look(section, key) {
        Some(toml) => Some(balance_day_of(toml)),
        None => None,
    }
}

// --- tuning --------------------------------------------------------------------

/// A percentage, or full for anything above.
pub open spec fn at_most_full(percent: int) -> int {
    if percent > 100 {
        100
    } else {
        percent
    }
}

/// Every knob of the `[tuning]` table, as a file sets it.
pub open spec fn tuning_reads(root: Table, t: SessionConfig) -> bool {
    &&& t.charge_margin.watts == kept(counts(root, "tuning"@, "charge_margin"@, u32::MAX as int), 50)
    &&& t.discharge_margin.watts == kept(counts(root, "tuning"@, "discharge_margin"@, u32::MAX as int), 5)
    &&& t.charge_start_threshold.mw == kept(thresholds(root, "tuning"@, "charge_start_threshold"@, i64::MIN as int), -100_000)
    &&& t.discharge_start_threshold.mw == kept(thresholds(root, "tuning"@, "discharge_start_threshold"@, i64::MAX as int), 0)
    &&& t.min_mode_duration_secs == kept(counts(root, "tuning"@, "min_mode_duration_secs"@, u64::MAX as int), 10)
    &&& t.min_decision_interval_secs == kept(counts(root, "tuning"@, "min_decision_interval_secs"@, u64::MAX as int), 5)
    &&& t.idle_timeout_secs == kept(counts(root, "tuning"@, "idle_timeout_secs"@, u64::MAX as int), 300)
    &&& t.min_idle_before_discharge_secs == kept(counts(root, "tuning"@, "min_idle_before_discharge_secs"@, u64::MAX as int), 300)
    &&& t.cycle_warn_threshold == kept(counts(root, "tuning"@, "cycle_warn_threshold"@, u32::MAX as int), 200)
    &&& t.min_soc@ == at_most_full(kept(counts(root, "tuning"@, "min_soc"@, u32::MAX as int), 10))
    &&& t.max_soc@ == at_most_full(kept(counts(root, "tuning"@, "max_soc"@, u32::MAX as int), 100))
    &&& t.balance_weekday == kept(balance_days(root, "tuning"@, "balance_weekday"@), Some(Weekday::Mon))
    &&& t.solar_discharge_block_threshold.mw == kept(thresholds(root, "tuning"@, "solar_discharge_block_threshold"@, i64::MIN as int), 0)
    &&& t.mqtt_timeout_secs == kept(counts(root, "tuning"@, "mqtt_timeout_secs"@, u64::MAX as int), 60)
}

/// What is said of knobs of the `[tuning]` table that cannot be read.
pub open spec fn tuning_warnings(root: Table) -> Seq<Seq<char>> {
    warned("tuning.charge_margin"@, fault(counts(root, "tuning"@, "charge_margin"@, u32::MAX as int)), "PowerMargin(50)"@)
        + warned("tuning.discharge_margin"@, fault(counts(root, "tuning"@, "discharge_margin"@, u32::MAX as int)), "PowerMargin(5)"@)
        + warned("tuning.charge_start_threshold"@, fault(thresholds(root, "tuning"@, "charge_start_threshold"@, i64::MIN as int)), "GridPower(-100.0)"@)
        + warned("tuning.discharge_start_threshold"@, fault(thresholds(root, "tuning"@, "discharge_start_threshold"@, i64::MAX as int)), "GridPower(0.0)"@)
        + warned("tuning.min_mode_duration_secs"@, fault(counts(root, "tuning"@, "min_mode_duration_secs"@, u64::MAX as int)), "10"@)
        + warned("tuning.min_decision_interval_secs"@, fault(counts(root, "tuning"@, "min_decision_interval_secs"@, u64::MAX as int)), "5"@)
        + warned("tuning.idle_timeout_secs"@, fault(counts(root, "tuning"@, "idle_timeout_secs"@, u64::MAX as int)), "300"@)
        + warned("tuning.min_idle_before_discharge_secs"@, fault(counts(root, "tuning"@, "min_idle_before_discharge_secs"@, u64::MAX as int)), "300"@)
        + warned("tuning.cycle_warn_threshold"@, fault(counts(root, "tuning"@, "cycle_warn_threshold"@, u32::MAX as int)), "200"@)
        + warned("tuning.min_soc"@, fault(counts(root, "tuning"@, "min_soc"@, u32::MAX as int)), "Soc(10)"@)
        + warned("tuning.max_soc"@, fault(counts(root, "tuning"@, "max_soc"@, u32::MAX as int)), "Soc(100)"@)
        + warned("tuning.balance_weekday"@, fault(balance_days(root, "tuning"@, "balance_weekday"@)), "BalanceDay(Some(Mon))"@)
        + warned("tuning.solar_discharge_block_threshold"@, fault(thresholds(root, "tuning"@, "solar_discharge_block_threshold"@, i64::MIN as int)), "SolarPower(0.0)"@)
        + warned("tuning.mqtt_timeout_secs"@, fault(counts(root, "tuning"@, "mqtt_timeout_secs"@, u64::MAX as int)), "60"@)
}

/// `section` is the `[tuning]` table of a file, where it has one.
spec fn is_tuning(root: Table, section: Option<&Vec<(String, Toml)>>) -> bool {
    match section {
        Some(table) => find(root, "tuning"@) == Some(Tree::Table(entries_of(table@))),
        None => find(root, "tuning"@) is None,
    }
}

/// A knob that holds a whole number.
fn tune_count(
    root: &Vec<(String, Toml)>,
    section: Option<&Vec<(String, Toml)>>,
    path: &str,
    key: &str,
    most: u64,
    default: u64,
    shown: &str,
    warnings: &mut Vec<String>,
) -> (out: u64)
    requires
        is_tuning(entries_of(root@), section),
        default <= most,
    ensures
        out == kept(counts(entries_of(root@), "tuning"@, key@, most as int), default as int),
        out <= most,
        views(final(warnings)@) == views(old(warnings)@) + warned(
            path@,
            fault(counts(entries_of(root@), "tuning"@, key@, most as int)),
            shown@,
        ),
{
    lenient(path, read_count_at(section, key, most), default, shown, warnings)
}

/// A knob that holds a threshold.
fn tune_threshold(
    root: &Vec<(String, Toml)>,
    section: Option<&Vec<(String, Toml)>>,
    path: &str,
    key: &str,
    nan: i64,
    default: i64,
    shown: &str,
    warnings: &mut Vec<String>,
) -> (out: i64)
    requires
        is_tuning(entries_of(root@), section),
    ensures
        out == kept(thresholds(entries_of(root@), "tuning"@, key@, nan as int), default as int),
        views(final(warnings)@) == views(old(warnings)@) + warned(
            path@,
            fault(thresholds(entries_of(root@), "tuning"@, key@, nan as int)),
            shown@,
        ),
{
    lenient(path, read_threshold_at(section, key, nan), default, shown, warnings)
}

/// The knob that holds a weekday.
fn tune_day(
    root: &Vec<(String, Toml)>,
    section: Option<&Vec<(String, Toml)>>,
    path: &str,
    key: &str,
    default: Option<Weekday>,
    shown: &str,
    warnings: &mut Vec<String>,
) -> (out: Option<Weekday>)
    requires
        is_tuning(entries_of(root@), section),
    ensures
        out == kept(balance_days(entries_of(root@), "tuning"@, key@), default),
        views(final(warnings)@) == views(old(warnings)@) + warned(
            path@,
            fault(balance_days(entries_of(root@), "tuning"@, key@)),
            shown@,
        ),
{
    lenient(path, read_day_at(section, key), default, shown, warnings)
}

fn read_tuning(root: &Vec<(String, Toml)>) -> (out: Result<(SessionConfig, Vec<String>), String>)
    ensures
        match out {
            Ok((t, warnings)) => {
                &&& section_problem(entries_of(root@), "tuning"@) is None
                &&& tuning_reads(entries_of(root@), t)
                &&& views(warnings@) == tuning_warnings(entries_of(root@))
            },
            Err(e) => section_problem(entries_of(root@), "tuning"@) == Some(e@),
        },
{
    let section = match open_section(root, "tuning") {
        Ok(section) => section,
        Err(e) => {
            return Err(e);
        },
    };
    let mut warnings: Vec<String> = Vec::new();
    let ghost entries = entries_of(root@);

    let charge_margin: u64 = tune_count(
        root,
        section,
        "tuning.charge_margin",
        "charge_margin",
        0xffff_ffff,
        50,
        "PowerMargin(50)",
        &mut warnings,
    );
    assert(views(warnings@) =~= warned("tuning.charge_margin"@, fault(counts(entries, "tuning"@, "charge_margin"@, u32::MAX as int)), "PowerMargin(50)"@));
    let discharge_margin: u64 = tune_count(
        root,
        section,
        "tuning.discharge_margin",
        "discharge_margin",
        0xffff_ffff,
        5,
        "PowerMargin(5)",
        &mut warnings,
    );
    let charge_start_threshold: i64 = tune_threshold(
        root,
        section,
        "tuning.charge_start_threshold",
        "charge_start_threshold",
        i64::MIN,
        -100_000,
        "GridPower(-100.0)",
        &mut warnings,
    );
    let discharge_start_threshold: i64 = tune_threshold(
        root,
        section,
        "tuning.discharge_start_threshold",
        "discharge_start_threshold",
        i64::MAX,
        0,
        "GridPower(0.0)",
        &mut warnings,
    );
    let min_mode_duration_secs: u64 = tune_count(
        root,
        section,
        "tuning.min_mode_duration_secs",
        "min_mode_duration_secs",
        0xffff_ffff_ffff_ffff,
        10,
        "10",
        &mut warnings,
    );
    let min_decision_interval_secs: u64 = tune_count(
        root,
        section,
        "tuning.min_decision_interval_secs",
        "min_decision_interval_secs",
        0xffff_ffff_ffff_ffff,
        5,
        "5",
        &mut warnings,
    );
    let idle_timeout_secs: u64 = tune_count(
        root,
        section,
        "tuning.idle_timeout_secs",
        "idle_timeout_secs",
        0xffff_ffff_ffff_ffff,
        300,
        "300",
        &mut warnings,
    );
    let min_idle_before_discharge_secs: u64 = tune_count(
        root,
        section,
        "tuning.min_idle_before_discharge_secs",
        "min_idle_before_discharge_secs",
        0xffff_ffff_ffff_ffff,
        300,
        "300",
        &mut warnings,
    );
    let cycle_warn_threshold: u64 = tune_count(
        root,
        section,
        "tuning.cycle_warn_threshold",
        "cycle_warn_threshold",
        0xffff_ffff,
        200,
        "200",
        &mut warnings,
    );
    let min_soc: u64 = tune_count(
        root,
        section,
        "tuning.min_soc",
        "min_soc",
        0xffff_ffff,
        10,
        "Soc(10)",
        &mut warnings,
    );
    let max_soc: u64 = tune_count(
        root,
        section,
        "tuning.max_soc",
        "max_soc",
        0xffff_ffff,
        100,
        "Soc(100)",
        &mut warnings,
    );
    let balance_weekday = tune_day(
        root,
        section,
        "tuning.balance_weekday",
        "balance_weekday",
        Some(Weekday::Mon),
        "BalanceDay(Some(Mon))",
        &mut warnings,
    );
    let solar_discharge_block_threshold: i64 = tune_threshold(
        root,
        section,
        "tuning.solar_discharge_block_threshold",
        "solar_discharge_block_threshold",
        i64::MIN,
        0,
        "SolarPower(0.0)",
        &mut warnings,
    );
    let mqtt_timeout_secs: u64 = tune_count(
        root,
        section,
        "tuning.mqtt_timeout_secs",
        "mqtt_timeout_secs",
        0xffff_ffff_ffff_ffff,
        60,
        "60",
        &mut warnings,
    );
    let tuning = SessionConfig {
        charge_margin: PowerMargin { watts: charge_margin as u32 },
        discharge_margin: PowerMargin { watts: discharge_margin as u32 },
        charge_start_threshold: GridPower { mw: charge_start_threshold },
        discharge_start_threshold: GridPower { mw: discharge_start_threshold },
        min_mode_duration_secs,
        min_decision_interval_secs,
        idle_timeout_secs,
        min_idle_before_discharge_secs,
        cycle_warn_threshold: cycle_warn_threshold as u32,
        min_soc: Soc::new(min_soc as u32),
        max_soc: Soc::new(max_soc as u32),
        balance_weekday,
        solar_discharge_block_threshold: SolarPower { mw: solar_discharge_block_threshold },
        mqtt_timeout_secs,
    };
    Ok((tuning, warnings))
}

// --- the device ----------------------------------------------------------------

/// The one entry of the `[[device]]` array, or why there is none.
pub open spec fn device_table(root: Table) -> Reading<Table> {
    match find(root, "device"@) {
        None => Err("device is required (at least one [[device]] entry)"@),
        Some(Tree::Array(entries)) => if entries.len() != 1 {
            Err("expected exactly one [[device]] entry, found "@ + decimal(entries.len()))
        } else {
            match entries[0] {
                Tree::Table(table) => Ok(table),
                other => Err("[[device]] entries must be tables, found "@ + other.kind()),
            }
        },
        Some(other) => Err(
            "device must be an array of tables ([[device]]), found "@ + other.kind(),
        ),
    }
}

/// `device.`, a key, and what is said of it.
pub open spec fn of_device(key: Seq<char>, said: Seq<char>) -> Seq<char> {
    "device."@ + key + said
}

pub open spec fn device_text(table: Table, key: Seq<char>) -> Reading<Seq<char>> {
    match find(table, key) {
        None => Err(of_device(key, " is required"@)),
        Some(Tree::Text(s)) => Ok(s),
        Some(other) => Err(of_device(key, " must be a string, found "@ + other.kind())),
    }
}

/// A whole number from nothing up to `most`.
pub open spec fn device_count(table: Table, key: Seq<char>, most: int) -> Reading<int> {
    match find(table, key) {
        None => Err(of_device(key, " is required"@)),
        Some(Tree::Integer(n)) => if 0 <= n <= most {
            Ok(n)
        } else {
            Err(of_device(key, " must be a non-negative integer, found "@ + signed(n)))
        },
        Some(other) => Err(of_device(key, " must be an integer, found "@ + other.kind())),
    }
}

/// A number in thousandths.
pub open spec fn device_milli(table: Table, key: Seq<char>) -> Reading<int> {
    match find(table, key) {
        None => Err(of_device(key, " is required"@)),
        Some(tree) => match milli_value(tree) {
            Some(m) => Ok(m),
            None => Err(of_device(key, " must be a number, found "@ + tree.kind())),
        },
    }
}

/// What is wrong with the first pack that is no number.
pub open spec fn packs_fault(items: Seq<Tree>, n: int) -> Option<Seq<char>>
    decreases n,
{
    if n <= 0 {
        None
    } else {
        match packs_fault(items, n - 1) {
            Some(e) => Some(e),
            None => match finite_milli(items[n - 1]) {
                Some(_) => None,
                None => Some(" entries must be numbers, found "@ + items[n - 1].kind()),
            },
        }
    }
}

/// The capacity of each pack, in thousandths of a watt-hour.
pub open spec fn device_packs(table: Table, key: Seq<char>) -> Reading<Seq<int>> {
    match find(table, key) {
        None => Err(of_device(key, " is required"@)),
        Some(Tree::Array(items)) => match packs_fault(items, items.len() as int) {
            Some(e) => Err(of_device(key, e)),
            None => Ok(Seq::new(items.len(), |i: int| finite_milli(items[i])->Some_0)),
        },
        Some(other) => Err(of_device(key, " must be an array, found "@ + other.kind())),
    }
}

/// The fields that a device of each kind has.
pub open spec fn is_device_field(kind: Seq<char>, key: Seq<char>) -> bool {
    ||| key == "kind"@
    ||| kind == "zendure"@ && (key == "ip"@ || key == "sn"@ || key == "poll_interval_secs"@)
    ||| kind == "virtual"@ && (key == "id"@ || key == "packs"@ || key == "soc"@ || key
        == "charge_efficiency"@ || key == "discharge_efficiency"@)
}

/// The first key from `from` on that is no field of that kind of device.
pub open spec fn stray_field(table: Table, kind: Seq<char>, from: int) -> Option<Seq<char>>
    decreases table.len() - from,
{
    if from >= table.len() {
        None
    } else if is_device_field(kind, table[from].0) {
        stray_field(table, kind, from + 1)
    } else {
        Some(of_device(table[from].0, " is not a recognised field"@))
    }
}

/// What is wrong with a reading that has to be good.
pub open spec fn bad<T>(reading: Reading<T>) -> Option<Seq<char>> {
    match reading {
        Ok(_) => None,
        Err(e) => Some(e),
    }
}

/// What stops the reader at the device.
pub open spec fn device_problem(root: Table) -> Option<Seq<char>> {
    match device_table(root) {
        Err(e) => Some(e),
        Ok(table) => match device_text(table, "kind"@) {
            Err(e) => Some(e),
            Ok(kind) => first(
                if kind == "zendure"@ {
                    first(
                        bad(device_text(table, "ip"@)),
                        first(
                            bad(device_text(table, "sn"@)),
                            bad(device_count(table, "poll_interval_secs"@, u64::MAX as int)),
                        ),
                    )
                } else if kind == "virtual"@ {
                    first(
                        bad(device_text(table, "id"@)),
                        first(
                            bad(device_packs(table, "packs"@)),
                            first(
                                bad(device_count(table, "soc"@, u32::MAX as int)),
                                first(
                                    bad(device_milli(table, "charge_efficiency"@)),
                                    bad(device_milli(table, "discharge_efficiency"@)),
                                ),
                            ),
                        ),
                    )
                } else {
                    Some(
                        "device.kind must be \"zendure\" or \"virtual\", found "@ + quoted(kind),
                    )
                },
                stray_field(table, kind, 0),
            ),
        },
    }
}

/// A percentage in thousandths, moved into the range from nothing to the whole.
pub open spec fn at_most_whole(milli_percent: int) -> int {
    if milli_percent < 0 {
        0
    } else if milli_percent > 100_000 {
        100_000
    } else {
        milli_percent
    }
}

/// A device, as a file without a problem describes it.
pub open spec fn device_reads(root: Table, device: DeviceConfig) -> bool {
    let table = device_table(root)->Ok_0;
    match device {
        DeviceConfig::Zendure { ip, sn, poll_interval } => {
            &&& device_text(table, "kind"@) == Ok::<Seq<char>, Seq<char>>("zendure"@)
            &&& device_text(table, "ip"@) == Ok::<Seq<char>, Seq<char>>(ip@)
            &&& device_text(table, "sn"@) == Ok::<Seq<char>, Seq<char>>(sn@)
            &&& device_count(table, "poll_interval_secs"@, u64::MAX as int) == Ok::<
                int,
                Seq<char>,
            >(poll_interval.secs as int)
            &&& poll_interval.millis == 0
        },
        DeviceConfig::Virtual { id, packs, soc, charge_efficiency, discharge_efficiency } => {
            &&& device_text(table, "kind"@) == Ok::<Seq<char>, Seq<char>>("virtual"@)
            &&& device_text(table, "id"@) == Ok::<Seq<char>, Seq<char>>(id@)
            &&& device_packs(table, "packs"@) matches Ok(sizes)
            &&& packs@ == Seq::new(
                sizes.len(),
                |i: int| WattHours { parts: (sizes[i] * 7200) as i128 },
            )
            &&& device_count(table, "soc"@, u32::MAX as int) matches Ok(percent)
            &&& soc@ == at_most_full(percent)
            &&& device_milli(table, "charge_efficiency"@) matches Ok(charge)
            &&& charge_efficiency@ == at_most_whole(charge)
            &&& device_milli(table, "discharge_efficiency"@) matches Ok(discharge)
            &&& discharge_efficiency@ == at_most_whole(discharge)
        },
    }
}

fn say_device(key: &str, said: &str) -> (out: String)
    ensures
        out@ == of_device(key@, said@),
{
    let mut out = "device.".to_owned();
    out.append(key);
    out.append(said);
    out
}

fn say_found(said: &str, found: &str) -> (out: String)
    ensures
        out@ == said@ + found@,
{
    let mut out = said.to_owned();
    out.append(found);
    out
}

fn take_device_field(table: &Vec<(String, Toml)>, key: &str) -> (out: Result<String, String>)
    ensures
        crate::setting::seen(out) == device_text(entries_of(table@), key@),
{
    match get(table, key) {
        None => Err(say_device(key, " is required")),
        Some(Toml::Text(s)) => Ok(s.clone()),
        Some(other) => Err(
            say_device(key, say_found(" must be a string, found ", other.type_str()).as_str()),
        ),
    }
}

fn take_device_count(table: &Vec<(String, Toml)>, key: &str, most: u64) -> (out: Result<
    u64,
    String,
>)
    ensures
        match out {
            Ok(n) => device_count(entries_of(table@), key@, most as int) == Ok::<int, Seq<char>>(
                n as int,
            ) && n <= most,
            Err(e) => device_count(entries_of(table@), key@, most as int) == Err::<int, Seq<char>>(
                e@,
            ),
        },
{
    match get(table, key) {
        None => Err(say_device(key, " is required")),
        Some(Toml::Integer(n)) => {
            let n: i64 = *n;
            if n >= 0 && n as u64 <= most {
                Ok(n as u64)
            } else {
                let mut said = " must be a non-negative integer, found ".to_owned();
                text::push_signed(&mut said, n as i128);
                Err(say_device(key, said.as_str()))
            }
        },
        Some(other) => Err(
            say_device(key, say_found(" must be an integer, found ", other.type_str()).as_str()),
        ),
    }
}

fn take_device_secs(table: &Vec<(String, Toml)>, key: &str) -> (out: Result<u64, String>)
    ensures
        match out {
            Ok(n) => device_count(entries_of(table@), key@, u64::MAX as int) == Ok::<
                int,
                Seq<char>,
            >(n as int),
            Err(e) => device_count(entries_of(table@), key@, u64::MAX as int) == Err::<
                int,
                Seq<char>,
            >(e@),
        },
{
    take_device_count(table, key, 0xffff_ffff_ffff_ffff)
}

fn take_device_soc(table: &Vec<(String, Toml)>, key: &str) -> (out: Result<Soc, String>)
    ensures
        match out {
            Ok(soc) => device_count(entries_of(table@), key@, u32::MAX as int) matches Ok(n)
                && soc@ == at_most_full(n),
            Err(e) => device_count(entries_of(table@), key@, u32::MAX as int) == Err::<
                int,
                Seq<char>,
            >(e@),
        },
{
    match take_device_count(table, key, 0xffff_ffff) {
        Ok(n) => Ok(Soc::new(n as u32)),
        Err(e) => Err(e),
    }
}

fn take_device_milli(table: &Vec<(String, Toml)>, key: &str) -> (out: Result<i64, String>)
    ensures
        match out {
            Ok(n) => device_milli(entries_of(table@), key@) == Ok::<int, Seq<char>>(n as int),
            Err(e) => device_milli(entries_of(table@), key@) == Err::<int, Seq<char>>(e@),
        },
{
    match get(table, key) {
        None => Err(say_device(key, " is required")),
        Some(toml) => match find_milli(toml) {
            Some(m) => Ok(m),
            None => Err(
                say_device(key, say_found(" must be a number, found ", toml.type_str()).as_str()),
            ),
        },
    }
}

/// A fault among the first packs is the fault of all of them.
proof fn first_bad_pack(items: Seq<Tree>, k: int, n: int)
    requires
        0 <= k <= n,
        packs_fault(items, k) is Some,
    ensures
        packs_fault(items, n) == packs_fault(items, k),
    decreases n - k,
{
    if k < n {
        first_bad_pack(items, k + 1, n);
    }
}

fn take_device_packs(table: &Vec<(String, Toml)>, key: &str) -> (out: Result<
    Vec<WattHours>,
    String,
>)
    ensures
        match out {
            Ok(packs) => device_packs(entries_of(table@), key@) matches Ok(sizes) && packs@
                == Seq::new(sizes.len(), |i: int| WattHours { parts: (sizes[i] * 7200) as i128 }),
            Err(e) => device_packs(entries_of(table@), key@) == Err::<Seq<int>, Seq<char>>(e@),
        },
{
    match get(table, key) {
        None => Err(say_device(key, " is required")),
        Some(toml) => {
            proof {
                tree_is_its_parts(*toml);
            }
            match toml {
                Toml::Array(items) => {
                    let ghost trees = items_of(items@);
                    let mut packs: Vec<WattHours> = Vec::new();
                    for i in 0..items.len()
                        invariant
                            trees == items_of(items@),
                            find(entries_of(table@), key@) == Some(Tree::Array(trees)),
                            packs_fault(trees, i as int) is None,
                            packs@.len() == i,
                            forall|k: int|
                                0 <= k < i ==> (finite_milli(#[trigger] trees[k]) matches Some(m)
                                    && packs@[k].parts == m * 7200),
                    {
                        assert(trees[i as int] == items@[i as int].tree());
                        match find_finite_milli(&items[i]) {
                            Some(m) => {
                                packs.push(WattHours::from_milli_wh(m));
                            },
                            None => {
                                proof {
                                    first_bad_pack(trees, i + 1, trees.len() as int);
                                }
                                return Err(
                                    say_device(
                                        key,
                                        say_found(
                                            " entries must be numbers, found ",
                                            items[i].type_str(),
                                        ).as_str(),
                                    ),
                                );
                            },
                        }
                    }
                    proof {
                        let sizes = Seq::new(trees.len(), |i: int| finite_milli(trees[i])->Some_0);
                        assert forall|k: int| 0 <= k < packs@.len() implies packs@[k] == (
                        WattHours { parts: (sizes[k] * 7200) as i128 }) by {
                            assert(finite_milli(trees[k]) is Some);
                        }
                        assert(packs@ =~= Seq::new(
                            sizes.len(),
                            |i: int| WattHours { parts: (sizes[i] * 7200) as i128 },
                        ));
                    }
                    Ok(packs)
                },
                other => Err(
                    say_device(
                        key,
                        say_found(" must be an array, found ", other.type_str()).as_str(),
                    ),
                ),
            }
        },
    }
}

fn device_field(kind: &str, key: &str) -> (out: bool)
    ensures
        out == is_device_field(kind@, key@),
{
    text::same(key, "kind") || (text::same(kind, "zendure") && (text::same(key, "ip")
        || text::same(key, "sn") || text::same(key, "poll_interval_secs"))) || (text::same(
        kind,
        "virtual",
    ) && (text::same(key, "id") || text::same(key, "packs") || text::same(key, "soc")
        || text::same(key, "charge_efficiency") || text::same(key, "discharge_efficiency")))
}

fn find_stray_field(table: &Vec<(String, Toml)>, kind: &str) -> (out: Option<String>)
    ensures
        match out {
            Some(e) => stray_field(entries_of(table@), kind@, 0) == Some(e@),
            None => stray_field(entries_of(table@), kind@, 0) is None,
        },
{
    let ghost entries = entries_of(table@);
    let mut i: usize = 0;
    while i < table.len()
        invariant
            i <= table.len(),
            entries == entries_of(table@),
            stray_field(entries, kind@, 0) == stray_field(entries, kind@, i as int),
        decreases table.len() - i,
    {
        assert(entries[i as int].0 == table@[i as int].0@);
        if !device_field(kind, table[i].0.as_str()) {
            return Some(say_device(table[i].0.as_str(), " is not a recognised field"));
        }
        i += 1;
    }
    None
}

/// The only entry of the `[[device]]` array.
fn open_device<'a>(root: &'a Vec<(String, Toml)>) -> (out: Result<&'a Vec<(String, Toml)>, String>)
    ensures
        match out {
            Ok(table) => device_table(entries_of(root@)) == Ok::<Table, Seq<char>>(
                entries_of(table@),
            ),
            Err(e) => device_table(entries_of(root@)) == Err::<Table, Seq<char>>(e@),
        },
{
    match get(root, "device") {
        None => Err("device is required (at least one [[device]] entry)".to_owned()),
        Some(toml) => {
            proof {
                tree_is_its_parts(*toml);
            }
            match toml {
                Toml::Array(items) => {
                    assert(items_of(items@).len() == items@.len());
                    if items.len() != 1 {
                        let mut e = "expected exactly one [[device]] entry, found ".to_owned();
                        text::push_decimal(&mut e, items.len() as u128);
                        return Err(e);
                    }
                    proof {
                        assert(items_of(items@)[0] == items@[0].tree());
                        tree_is_its_parts(items@[0]);
                    }
                    match &items[0] {
                        Toml::Table(table) => Ok(table),
                        other => Err(
                            say_found("[[device]] entries must be tables, found ", other.type_str()),
                        ),
                    }
                },
                other => Err(
                    say_found(
                        "device must be an array of tables ([[device]]), found ",
                        other.type_str(),
                    ),
                ),
            }
        },
    }
}

/// The device that a file describes. Everything about it is fatal: a device
/// that cannot be reached is no matter of deciding slightly differently.
fn take_device(root: &Vec<(String, Toml)>) -> (out: Result<DeviceConfig, String>)
    ensures
        match out {
            Ok(device) => device_problem(entries_of(root@)) is None && device_reads(
                entries_of(root@),
                device,
            ),
            Err(e) => device_problem(entries_of(root@)) == Some(e@),
        },
{
    let table = match open_device(root) {
        Ok(table) => table,
        Err(e) => {
            return Err(e);
        },
    };
    let kind = match take_device_field(table, "kind") {
        Ok(kind) => kind,
        Err(e) => {
            return Err(e);
        },
    };
    let device = if text::same(kind.as_str(), "zendure") {
        let ip = match take_device_field(table, "ip") {
            Ok(ip) => ip,
            Err(e) => {
                return Err(e);
            },
        };
        let sn = match take_device_field(table, "sn") {
            Ok(sn) => sn,
            Err(e) => {
                return Err(e);
            },
        };
        let secs = match take_device_secs(table, "poll_interval_secs") {
            Ok(secs) => secs,
            Err(e) => {
                return Err(e);
            },
        };
        DeviceConfig::Zendure { ip, sn, poll_interval: Duration::from_secs(secs) }
    } else if text::same(kind.as_str(), "virtual") {
        proof {
            reveal_strlit("zendure");
            reveal_strlit("virtual");
            assert("zendure"@[0] != "virtual"@[0]);
        }
        let id = match take_device_field(table, "id") {
            Ok(id) => id,
            Err(e) => {
                return Err(e);
            },
        };
        let packs = match take_device_packs(table, "packs") {
            Ok(packs) => packs,
            Err(e) => {
                return Err(e);
            },
        };
        let soc = match take_device_soc(table, "soc") {
            Ok(soc) => soc,
            Err(e) => {
                return Err(e);
            },
        };
        let charge = match take_device_milli(table, "charge_efficiency") {
            Ok(m) => m,
            Err(e) => {
                return Err(e);
            },
        };
        let discharge = match take_device_milli(table, "discharge_efficiency") {
            Ok(m) => m,
            Err(e) => {
                return Err(e);
            },
        };
        DeviceConfig::Virtual {
            id,
            packs,
            soc,
            charge_efficiency: Efficiency::new(charge),
            discharge_efficiency: Efficiency::new(discharge),
        }
    } else {
        let mut e = "device.kind must be \"zendure\" or \"virtual\", found ".to_owned();
        text::push_quoted(&mut e, kind.as_str());
        return Err(e);
    };
    match find_stray_field(table, kind.as_str()) {
        Some(e) => Err(e),
        None => Ok(device),
    }
}

// --- sections ------------------------------------------------------------------

/// What was read, where it was read.
pub open spec fn found<T>(reading: Option<Reading<T>>) -> Option<T> {
    match reading {
        Some(Ok(v)) => Some(v),
        _ => None,
    }
}

/// An optional text, seen as characters.
pub open spec fn seen_option(s: Option<String>) -> Option<Seq<char>> {
    match s {
        Some(s) => Some(s@),
        None => None,
    }
}

pub open spec fn mqtt_problem(root: Table) -> Option<Seq<char>> {
    first(
        section_problem(root, "mqtt"@),
        if has_section(root, "mqtt"@) {
            first(
                required("mqtt.host"@, texts(root, "mqtt"@, "host"@)),
                first(
                    optional("mqtt.port"@, counts(root, "mqtt"@, "port"@, u16::MAX as int)),
                    first(
                        optional("mqtt.username"@, texts(root, "mqtt"@, "username"@)),
                        first(
                            optional("mqtt.password"@, texts(root, "mqtt"@, "password"@)),
                            optional("mqtt.client_id"@, texts(root, "mqtt"@, "client_id"@)),
                        ),
                    ),
                ),
            )
        } else {
            None
        },
    )
}

pub open spec fn mqtt_reads(root: Table, mqtt: Option<MqttConfig>) -> bool {
    &&& mqtt is Some <==> has_section(root, "mqtt"@)
    &&& mqtt matches Some(m) ==> {
        &&& found(texts(root, "mqtt"@, "host"@)) == Some(m.host@)
        &&& m.port == kept(counts(root, "mqtt"@, "port"@, u16::MAX as int), 1883)
        &&& seen_option(m.username) == found(texts(root, "mqtt"@, "username"@))
        &&& seen_option(m.password) == found(texts(root, "mqtt"@, "password"@))
        &&& m.client_id@ == kept(texts(root, "mqtt"@, "client_id"@), "zendure-controller"@)
    }
}

fn read_mqtt(root: &Vec<(String, Toml)>) -> (out: Result<Option<MqttConfig>, String>)
    ensures
        match out {
            Ok(mqtt) => mqtt_problem(entries_of(root@)) is None && mqtt_reads(
                entries_of(root@),
                mqtt,
            ),
            Err(e) => mqtt_problem(entries_of(root@)) == Some(e@),
        },
{
    let section = match open_section(root, "mqtt") {
        Err(e) => {
            return Err(e);
        },
        Ok(None) => {
            return Ok(None);
        },
        Ok(section) => section,
    };
    let host = match demand("mqtt.host", read_text_at(section, "host")) {
        Ok(host) => host,
        Err(e) => {
            return Err(e);
        },
    };
    let port = match accept("mqtt.port", read_count_at(section, "port", 65535)) {
        Ok(Some(port)) => port,
        Ok(None) => 1883,
        Err(e) => {
            return Err(e);
        },
    };
    let username = match accept("mqtt.username", read_text_at(section, "username")) {
        Ok(username) => username,
        Err(e) => {
            return Err(e);
        },
    };
    let password = match accept("mqtt.password", read_text_at(section, "password")) {
        Ok(password) => password,
        Err(e) => {
            return Err(e);
        },
    };
    let client_id = match accept("mqtt.client_id", read_text_at(section, "client_id")) {
        Ok(Some(client_id)) => client_id,
        Ok(None) => "zendure-controller".to_owned(),
        Err(e) => {
            return Err(e);
        },
    };
    Ok(Some(MqttConfig { host, port: port as u16, username, password, client_id }))
}

pub open spec fn shelly_problem(root: Table) -> Option<Seq<char>> {
    first(
        section_problem(root, "shelly"@),
        if has_section(root, "shelly"@) {
            required("shelly.topic"@, texts(root, "shelly"@, "topic"@))
        } else {
            None
        },
    )
}

pub open spec fn shelly_reads(root: Table, shelly: Option<ShellyConfig>) -> bool {
    &&& shelly is Some <==> has_section(root, "shelly"@)
    &&& shelly matches Some(s) ==> {
        &&& found(texts(root, "shelly"@, "topic"@)) == Some(s.topic@)
        &&& s.solar_phase == kept(phases(root, "shelly"@, "solar_phase"@), SolarPhase::A)
    }
}

pub open spec fn shelly_warnings(root: Table) -> Seq<Seq<char>> {
    warned("shelly.solar_phase"@, fault(phases(root, "shelly"@, "solar_phase"@)), "A"@)
}

fn read_shelly(root: &Vec<(String, Toml)>) -> (out: Result<
    (Option<ShellyConfig>, Vec<String>),
    String,
>)
    ensures
        match out {
            Ok((shelly, warnings)) => {
                &&& shelly_problem(entries_of(root@)) is None
                &&& shelly_reads(entries_of(root@), shelly)
                &&& views(warnings@) == shelly_warnings(entries_of(root@))
            },
            Err(e) => shelly_problem(entries_of(root@)) == Some(e@),
        },
{
    let mut warnings: Vec<String> = Vec::new();
    assert(views(warnings@) =~= Seq::<Seq<char>>::empty());
    let section = match open_section(root, "shelly") {
        Err(e) => {
            return Err(e);
        },
        Ok(None) => {
            return Ok((None, warnings));
        },
        Ok(section) => section,
    };
    let topic = match demand("shelly.topic", read_text_at(section, "topic")) {
        Ok(topic) => topic,
        Err(e) => {
            return Err(e);
        },
    };
    let reading = match look(section, "solar_phase") {
        Some(toml) => Some(phase_of(toml)),
        None => None,
    };
    let solar_phase = lenient(
        "shelly.solar_phase",
        reading,
        SolarPhase::A,
        "A",
        &mut warnings,
    );
    assert(views(warnings@) =~= shelly_warnings(entries_of(root@)));
    Ok((Some(ShellyConfig { topic, solar_phase }), warnings))
}

/// The file asks for a meter that is made up.
pub open spec fn is_synthetic(root: Table) -> bool {
    found(texts(root, "meter"@, "kind"@)) == Some("synthetic"@)
}

pub open spec fn meter_problem(root: Table) -> Option<Seq<char>> {
    first(
        section_problem(root, "meter"@),
        if has_section(root, "meter"@) {
            first(
                required("meter.kind"@, texts(root, "meter"@, "kind"@)),
                if is_synthetic(root) {
                    first(
                        required("meter.base_load"@, all_watts(root, "meter"@, "base_load"@)),
                        required("meter.solar_peak"@, all_watts(root, "meter"@, "solar_peak"@)),
                    )
                } else if found(texts(root, "meter"@, "kind"@)) == Some("shelly"@) {
                    None
                } else {
                    Some(
                        "meter.kind must be \"shelly\" or \"synthetic\", found "@ + quoted(
                            found(texts(root, "meter"@, "kind"@))->0,
                        ),
                    )
                },
            )
        } else {
            None
        },
    )
}

pub open spec fn meter_reads(root: Table, meter: MeterConfig) -> bool {
    match meter {
        MeterConfig::Shelly => !is_synthetic(root),
        MeterConfig::Synthetic { base_load, solar_peak } => {
            &&& is_synthetic(root)
            &&& found(all_watts(root, "meter"@, "base_load"@)) == Some(base_load.w as int)
            &&& found(all_watts(root, "meter"@, "solar_peak"@)) == Some(solar_peak.w as int)
        },
    }
}

fn read_meter(root: &Vec<(String, Toml)>) -> (out: Result<MeterConfig, String>)
    ensures
        match out {
            Ok(meter) => meter_problem(entries_of(root@)) is None && meter_reads(
                entries_of(root@),
                meter,
            ),
            Err(e) => meter_problem(entries_of(root@)) == Some(e@),
        },
{
    proof {
        reveal_strlit("shelly");
        reveal_strlit("synthetic");
        assert("shelly"@.len() != "synthetic"@.len());
    }
    let section = match open_section(root, "meter") {
        Err(e) => {
            return Err(e);
        },
        Ok(None) => {
            return Ok(MeterConfig::Shelly);
        },
        Ok(section) => section,
    };
    let kind = match demand("meter.kind", read_text_at(section, "kind")) {
        Ok(kind) => kind,
        Err(e) => {
            return Err(e);
        },
    };
    if text::same(kind.as_str(), "shelly") {
        return Ok(MeterConfig::Shelly);
    }
    if text::same(kind.as_str(), "synthetic") {
        let base_load = match demand("meter.base_load", read_watts_at(section, "base_load")) {
            Ok(w) => Watts { w },
            Err(e) => {
                return Err(e);
            },
        };
        let solar_peak = match demand("meter.solar_peak", read_watts_at(section, "solar_peak")) {
            Ok(w) => Watts { w },
            Err(e) => {
                return Err(e);
            },
        };
        return Ok(MeterConfig::Synthetic { base_load, solar_peak });
    }
    let mut e = "meter.kind must be \"shelly\" or \"synthetic\", found ".to_owned();
    text::push_quoted(&mut e, kind.as_str());
    Err(e)
}

/// What is wrong between sections that are each in order: the meter needs what
/// it reads from.
pub open spec fn coherence_problem(root: Table) -> Option<Seq<char>> {
    if !is_synthetic(root) && !has_section(root, "mqtt"@) {
        Some(
            "meter is Shelly (the default) but [mqtt] is absent — the Shelly reading arrives over MQTT; add [mqtt], or set [meter] kind = \"synthetic\" to run without a broker"@,
        )
    } else if !is_synthetic(root) && !has_section(root, "shelly"@) {
        Some(
            "meter is Shelly (the default) but [shelly] is absent — shelly.topic is required; add [shelly], or set [meter] kind = \"synthetic\""@,
        )
    } else if is_synthetic(root) && device_text(device_table(root)->Ok_0, "kind"@) != Ok::<
        Seq<char>,
        Seq<char>,
    >("virtual"@) {
        Some(
            "meter kind = \"synthetic\" requires [[device]] kind = \"virtual\" — the synthetic meter feeds the battery's own simulated flow back into its reading, which only a virtual battery can supply"@,
        )
    } else {
        None
    }
}

fn check_coherent(
    device: &DeviceConfig,
    mqtt: &Option<MqttConfig>,
    shelly: &Option<ShellyConfig>,
    meter: &MeterConfig,
    Ghost(root): Ghost<Table>,
) -> (out: Option<String>)
    requires
        device_reads(root, *device),
        mqtt_reads(root, *mqtt),
        shelly_reads(root, *shelly),
        meter_reads(root, *meter),
    ensures
        match out {
            Some(e) => coherence_problem(root) == Some(e@),
            None => coherence_problem(root) is None,
        },
{
    proof {
        reveal_strlit("zendure");
        reveal_strlit("virtual");
        assert("zendure"@[0] != "virtual"@[0]);
    }
    match meter {
        MeterConfig::Shelly => {
            if mqtt.is_none() {
                return Some(
                    "meter is Shelly (the default) but [mqtt] is absent — the Shelly reading arrives over MQTT; add [mqtt], or set [meter] kind = \"synthetic\" to run without a broker".to_owned(),
                );
            }
            if shelly.is_none() {
                return Some(
                    "meter is Shelly (the default) but [shelly] is absent — shelly.topic is required; add [shelly], or set [meter] kind = \"synthetic\"".to_owned(),
                );
            }
            None
        },
        MeterConfig::Synthetic { .. } => match device {
            DeviceConfig::Virtual { .. } => None,
            DeviceConfig::Zendure { .. } => Some(
                "meter kind = \"synthetic\" requires [[device]] kind = \"virtual\" — the synthetic meter feeds the battery's own simulated flow back into its reading, which only a virtual battery can supply".to_owned(),
            ),
        },
    }
}

pub open spec fn web_problem(root: Table) -> Option<Seq<char>> {
    first(
        section_problem(root, "web"@),
        first(
            optional("web.bind_address"@, addresses(root, "web"@, "bind_address"@)),
            optional("web.port"@, counts(root, "web"@, "port"@, u16::MAX as int)),
        ),
    )
}

/// The dashboard is served on the machine itself unless the file says
/// otherwise.
pub open spec fn web_reads(root: Table, web: Option<WebConfig>) -> bool {
    &&& web is Some <==> has_section(root, "web"@)
    &&& web matches Some(w) ==> {
        &&& w.bind_address == kept(
            addresses(root, "web"@, "bind_address"@),
            IpAddress::V4(0x7f00_0001),
        )
        &&& w.port == kept(counts(root, "web"@, "port"@, u16::MAX as int), 8080)
    }
}

fn read_web(root: &Vec<(String, Toml)>) -> (out: Result<Option<WebConfig>, String>)
    ensures
        match out {
            Ok(web) => web_problem(entries_of(root@)) is None && web_reads(entries_of(root@), web),
            Err(e) => web_problem(entries_of(root@)) == Some(e@),
        },
{
    let section = match open_section(root, "web") {
        Err(e) => {
            return Err(e);
        },
        Ok(None) => {
            return Ok(None);
        },
        Ok(section) => section,
    };
    let reading = match look(section, "bind_address") {
        Some(toml) => Some(ip_of(toml)),
        None => None,
    };
    let bind_address = match accept("web.bind_address", reading) {
        Ok(Some(address)) => address,
        Ok(None) => IpAddress::V4(0x7f00_0001),
        Err(e) => {
            return Err(e);
        },
    };
    let port = match accept("web.port", read_count_at(section, "port", 65535)) {
        Ok(Some(port)) => port,
        Ok(None) => 8080,
        Err(e) => {
            return Err(e);
        },
    };
    Ok(Some(WebConfig { bind_address, port: port as u16 }))
}

/// A section of one text with a default.
fn read_text_knob(
    root: &Vec<(String, Toml)>,
    section: &str,
    key: &str,
    path: &str,
    default: &str,
    shown: &str,
    warnings: &mut Vec<String>,
) -> (out: Result<String, String>)
    ensures
        match out {
            Ok(s) => {
                &&& section_problem(entries_of(root@), section@) is None
                &&& s@ == kept(texts(entries_of(root@), section@, key@), default@)
                &&& views(final(warnings)@) == views(old(warnings)@) + warned(
                    path@,
                    fault(texts(entries_of(root@), section@, key@)),
                    shown@,
                )
            },
            Err(e) => section_problem(entries_of(root@), section@) == Some(e@),
        },
{
    match open_section(root, section) {
        Err(e) => Err(e),
        Ok(opened) => Ok(
            lenient(path, read_text_at(opened, key), default.to_owned(), shown, warnings),
        ),
    }
}

/// A section of one path with a default.
fn read_path_knob(
    root: &Vec<(String, Toml)>,
    section: &str,
    key: &str,
    path: &str,
    default: &str,
    shown: &str,
    warnings: &mut Vec<String>,
) -> (out: Result<String, String>)
    ensures
        match out {
            Ok(s) => {
                &&& section_problem(entries_of(root@), section@) is None
                &&& s@ == kept(paths(entries_of(root@), section@, key@), default@)
                &&& views(final(warnings)@) == views(old(warnings)@) + warned(
                    path@,
                    fault(paths(entries_of(root@), section@, key@)),
                    shown@,
                )
            },
            Err(e) => section_problem(entries_of(root@), section@) == Some(e@),
        },
{
    match open_section(root, section) {
        Err(e) => Err(e),
        Ok(opened) => {
            let reading = match look(opened, key) {
                Some(toml) => Some(path_of(toml)),
                None => None,
            };
            Ok(lenient(path, reading, default.to_owned(), shown, warnings))
        },
    }
}

// --- what is left over ---------------------------------------------------------

pub open spec fn is_section(name: Seq<char>) -> bool {
    ||| name == "mqtt"@
    ||| name == "shelly"@
    ||| name == "meter"@
    ||| name == "web"@
    ||| name == "homeassistant"@
    ||| name == "clock"@
    ||| name == "journal"@
    ||| name == "rte"@
    ||| name == "logging"@
    ||| name == "tuning"@
}

/// The keys that are read from each section.
pub open spec fn is_known_key(section: Seq<char>, key: Seq<char>, synthetic: bool) -> bool {
    ||| section == "mqtt"@ && (key == "host"@ || key == "port"@ || key == "username"@ || key
        == "password"@ || key == "client_id"@)
    ||| section == "shelly"@ && (key == "topic"@ || key == "solar_phase"@)
    ||| section == "meter"@ && (key == "kind"@ || synthetic && (key == "base_load"@ || key
        == "solar_peak"@))
    ||| section == "web"@ && (key == "bind_address"@ || key == "port"@)
    ||| section == "homeassistant"@ && key == "publish_prefix"@
    ||| section == "clock"@ && key == "timezone"@
    ||| section == "journal"@ && (key == "path"@ || key == "retention_days"@)
    ||| section == "rte"@ && key == "state_path"@
    ||| section == "logging"@ && key == "filter"@
    ||| section == "tuning"@ && is_tuning_key(key)
}

/// The knobs: the fields of [`SessionConfig`], under their own names.
pub open spec fn is_tuning_key(key: Seq<char>) -> bool {
    ||| key == "charge_margin"@
    ||| key == "discharge_margin"@
    ||| key == "charge_start_threshold"@
    ||| key == "discharge_start_threshold"@
    ||| key == "min_mode_duration_secs"@
    ||| key == "min_decision_interval_secs"@
    ||| key == "idle_timeout_secs"@
    ||| key == "min_idle_before_discharge_secs"@
    ||| key == "cycle_warn_threshold"@
    ||| key == "min_soc"@
    ||| key == "max_soc"@
    ||| key == "balance_weekday"@
    ||| key == "solar_discharge_block_threshold"@
    ||| key == "mqtt_timeout_secs"@
}

pub open spec fn unknown(path: Seq<char>) -> Seq<char> {
    "unknown key `"@ + path + "`; ignored"@
}

/// What is said of the first `n` keys of a section.
pub open spec fn strays_in(
    section: Seq<char>,
    table: Table,
    synthetic: bool,
    n: int,
) -> Seq<Seq<char>>
    decreases n,
{
    if n <= 0 {
        Seq::empty()
    } else {
        let front = strays_in(section, table, synthetic, n - 1);
        if is_known_key(section, table[n - 1].0, synthetic) {
            front
        } else {
            front.push(unknown(section + "."@ + table[n - 1].0))
        }
    }
}

/// What is said of the first `n` entries of a file. A key that no section has
/// is named in full; a section that nothing is read from is named once.
pub open spec fn strays(root: Table, synthetic: bool, n: int) -> Seq<Seq<char>>
    decreases n,
{
    if n <= 0 {
        Seq::empty()
    } else {
        let front = strays(root, synthetic, n - 1);
        let (name, tree) = root[n - 1];
        if name == "device"@ {
            front
        } else {
            match tree {
                Tree::Table(table) if is_section(name) => front + strays_in(
                    name,
                    table,
                    synthetic,
                    table.len() as int,
                ),
                _ => front.push(unknown(name)),
            }
        }
    }
}

fn section_is(name: &str) -> (out: bool)
    ensures
        out == is_section(name@),
{
    text::same(name, "mqtt") || text::same(name, "shelly") || text::same(name, "meter")
        || text::same(name, "web") || text::same(name, "homeassistant") || text::same(name, "clock")
        || text::same(name, "journal") || text::same(name, "rte") || text::same(name, "logging")
        || text::same(name, "tuning")
}

pub(crate) fn tuning_key(key: &str) -> (out: bool)
    ensures
        out == is_tuning_key(key@),
{
    text::same(key, "charge_margin") || text::same(key, "discharge_margin") || text::same(
        key,
        "charge_start_threshold",
    ) || text::same(key, "discharge_start_threshold") || text::same(key, "min_mode_duration_secs")
        || text::same(key, "min_decision_interval_secs") || text::same(key, "idle_timeout_secs")
        || text::same(key, "min_idle_before_discharge_secs") || text::same(
        key,
        "cycle_warn_threshold",
    ) || text::same(key, "min_soc") || text::same(key, "max_soc") || text::same(
        key,
        "balance_weekday",
    ) || text::same(key, "solar_discharge_block_threshold") || text::same(key, "mqtt_timeout_secs")
}

fn known_key(section: &str, key: &str, synthetic: bool) -> (out: bool)
    ensures
        out == is_known_key(section@, key@, synthetic),
{
    (text::same(section, "mqtt") && (text::same(key, "host") || text::same(key, "port")
        || text::same(key, "username") || text::same(key, "password") || text::same(
        key,
        "client_id",
    ))) || (text::same(section, "shelly") && (text::same(key, "topic") || text::same(
        key,
        "solar_phase",
    ))) || (text::same(section, "meter") && (text::same(key, "kind") || (synthetic && (text::same(
        key,
        "base_load",
    ) || text::same(key, "solar_peak"))))) || (text::same(section, "web") && (text::same(
        key,
        "bind_address",
    ) || text::same(key, "port"))) || (text::same(section, "homeassistant") && text::same(
        key,
        "publish_prefix",
    )) || (text::same(section, "clock") && text::same(key, "timezone")) || (text::same(
        section,
        "journal",
    ) && (text::same(key, "path") || text::same(key, "retention_days"))) || (text::same(
        section,
        "rte",
    ) && text::same(key, "state_path")) || (text::same(section, "logging") && text::same(
        key,
        "filter",
    )) || (text::same(section, "tuning") && tuning_key(key))
}

fn say_unknown(path: &str) -> (out: String)
    ensures
        out@ == unknown(path@),
{
    let mut out = "unknown key `".to_owned();
    out.append(path);
    out.append("`; ignored");
    out
}

fn push_strays_in(
    section: &str,
    table: &Vec<(String, Toml)>,
    synthetic: bool,
    warnings: &mut Vec<String>,
)
    ensures
        views(final(warnings)@) == views(old(warnings)@) + strays_in(
            section@,
            entries_of(table@),
            synthetic,
            table@.len() as int,
        ),
{
    let ghost entries = entries_of(table@);
    let ghost before = views(warnings@);
    assert(before + strays_in(section@, entries, synthetic, 0) =~= before);
    for i in 0..table.len()
        invariant
            entries == entries_of(table@),
            views(warnings@) == before + strays_in(section@, entries, synthetic, i as int),
    {
        assert(entries[i as int].0 == table@[i as int].0@);
        if !known_key(section, table[i].0.as_str(), synthetic) {
            let mut path = section.to_owned();
            path.append(".");
            path.append(table[i].0.as_str());
            let ghost so_far = warnings@;
            let warning = say_unknown(path.as_str());
            warnings.push(warning);
            proof {
                assert(views(warnings@) =~= views(so_far).push(warning@));
                assert(views(warnings@) =~= before + strays_in(
                    section@,
                    entries,
                    synthetic,
                    i + 1,
                ));
            }
        }
    }
}

fn push_strays(root: &Vec<(String, Toml)>, synthetic: bool, warnings: &mut Vec<String>)
    ensures
        views(final(warnings)@) == views(old(warnings)@) + strays(
            entries_of(root@),
            synthetic,
            root@.len() as int,
        ),
{
    let ghost entries = entries_of(root@);
    let ghost before = views(warnings@);
    assert(before + strays(entries, synthetic, 0) =~= before);
    for i in 0..root.len()
        invariant
            entries == entries_of(root@),
            views(warnings@) == before + strays(entries, synthetic, i as int),
    {
        proof {
            assert(entries[i as int] == (root@[i as int].0@, root@[i as int].1.tree()));
            tree_is_its_parts(root@[i as int].1);
        }
        let ghost so_far = views(warnings@);
        let name = root[i].0.as_str();
        if text::same(name, "device") {
        } else {
            let mut inside = false;
            if section_is(name) {
                if let Toml::Table(table) = &root[i].1 {
                    inside = true;
                    push_strays_in(name, table, synthetic, warnings);
                    assert(views(warnings@) =~= before + strays(entries, synthetic, i + 1));
                }
            }
            if !inside {
                let warning = say_unknown(name);
                let ghost earlier = warnings@;
                warnings.push(warning);
                proof {
                    assert(views(warnings@) =~= views(earlier).push(warning@));
                    assert(views(warnings@) =~= before + strays(entries, synthetic, i + 1));
                }
            }
        }
    }
}

// --- the whole file ------------------------------------------------------------

/// What stops the reader, in the order in which it reads.
pub open spec fn problem(root: Table) -> Option<Seq<char>> {
    first(
        device_problem(root),
        first(
            mqtt_problem(root),
            first(
                shelly_problem(root),
                first(
                    meter_problem(root),
                    first(
                        coherence_problem(root),
                        first(
                            web_problem(root),
                            first(
                                section_problem(root, "homeassistant"@),
                                first(
                                    section_problem(root, "clock"@),
                                    first(
                                        section_problem(root, "journal"@),
                                        first(
                                            section_problem(root, "rte"@),
                                            first(
                                                section_problem(root, "logging"@),
                                                section_problem(root, "tuning"@),
                                            ),
                                        ),
                                    ),
                                ),
                            ),
                        ),
                    ),
                ),
            ),
        ),
    )
}

/// What is said of a file that is read: knobs that keep their defaults, and
/// keys that nothing is read from.
pub open spec fn warnings_of(root: Table) -> Seq<Seq<char>> {
    shelly_warnings(root)
        + warned("homeassistant.publish_prefix"@, fault(texts(root, "homeassistant"@, "publish_prefix"@)), "\"zendure\""@)
        + warned("clock.timezone"@, fault(timezones(root, "clock"@, "timezone"@)), "TimezoneName(UTC)"@)
        + warned("journal.path"@, fault(paths(root, "journal"@, "path"@)), "\"/var/lib/zendure/journal.db\""@)
        + warned("journal.retention_days"@, fault(all_days(root, "journal"@, "retention_days"@)), "RetentionDays(90)"@)
        + warned("rte.state_path"@, fault(paths(root, "rte"@, "state_path"@)), "\"/var/lib/zendure/rte_state.json\""@)
        + warned("logging.filter"@, fault(texts(root, "logging"@, "filter"@)), "\"zendure=info\""@)
        + tuning_warnings(root) + strays(root, is_synthetic(root), root.len() as int)
}

/// The configuration that a file without a problem gives.
pub open spec fn config_reads(root: Table, config: Config) -> bool {
    &&& device_reads(root, config.device)
    &&& mqtt_reads(root, config.mqtt)
    &&& shelly_reads(root, config.shelly)
    &&& meter_reads(root, config.meter)
    &&& web_reads(root, config.web)
    &&& config.ha_publish_prefix@ == kept(
        texts(root, "homeassistant"@, "publish_prefix"@),
        "zendure"@,
    )
    &&& config.timezone@ == kept(timezones(root, "clock"@, "timezone"@), "UTC"@)
    &&& config.journal_path@ == kept(
        paths(root, "journal"@, "path"@),
        DEFAULT_JOURNAL_PATH@,
    )
    &&& config.journal_retention_days@ == kept(
        all_days(root, "journal"@, "retention_days"@),
        90,
    )
    &&& config.rte_state_path@ == kept(
        paths(root, "rte"@, "state_path"@),
        DEFAULT_RTE_STATE_PATH@,
    )
    &&& config.log_filter@ == kept(texts(root, "logging"@, "filter"@), "zendure=info"@)
    &&& tuning_reads(root, config.spec_session())
    &&& config.min_mode_duration.millis == 0
    &&& config.min_decision_interval.millis == 0
    &&& config.idle_timeout.millis == 0
    &&& config.min_idle_before_discharge.millis == 0
    &&& config.mqtt_timeout.millis == 0
}

impl Config {
    /// The tuning knobs, without anything that says how to reach a device.
    pub open spec fn spec_session(self) -> SessionConfig {
        SessionConfig {
            charge_margin: self.charge_margin,
            discharge_margin: self.discharge_margin,
            charge_start_threshold: self.charge_start_threshold,
            discharge_start_threshold: self.discharge_start_threshold,
            min_mode_duration_secs: self.min_mode_duration.secs,
            min_decision_interval_secs: self.min_decision_interval.secs,
            idle_timeout_secs: self.idle_timeout.secs,
            min_idle_before_discharge_secs: self.min_idle_before_discharge.secs,
            cycle_warn_threshold: self.cycle_warn_threshold,
            min_soc: self.min_soc,
            max_soc: self.max_soc,
            balance_weekday: self.balance_weekday,
            solar_discharge_block_threshold: self.solar_discharge_block_threshold,
            mqtt_timeout_secs: self.mqtt_timeout.secs,
        }
    }

    /// The tuning knobs, without anything that says how to reach a device.
    /// Every field is named, so that a new one has to be placed here.
    pub fn session(&self) -> (out: SessionConfig)
        ensures
            out == self.spec_session(),
    {
        let Config {
            mqtt: _,
            device: _,
            shelly: _,
            meter: _,
            web: _,
            ha_publish_prefix: _,
            journal_path: _,
            journal_retention_days: _,
            rte_state_path: _,
            log_filter: _,
            timezone: _,
            charge_margin,
            discharge_margin,
            charge_start_threshold,
            discharge_start_threshold,
            min_mode_duration,
            min_decision_interval,
            idle_timeout,
            cycle_warn_threshold,
            min_soc,
            max_soc,
            balance_weekday,
            solar_discharge_block_threshold,
            min_idle_before_discharge,
            mqtt_timeout,
        } = self;
        SessionConfig {
            charge_margin: *charge_margin,
            discharge_margin: *discharge_margin,
            charge_start_threshold: *charge_start_threshold,
            discharge_start_threshold: *discharge_start_threshold,
            min_mode_duration_secs: min_mode_duration.as_secs(),
            min_decision_interval_secs: min_decision_interval.as_secs(),
            idle_timeout_secs: idle_timeout.as_secs(),
            min_idle_before_discharge_secs: min_idle_before_discharge.as_secs(),
            cycle_warn_threshold: *cycle_warn_threshold,
            min_soc: *min_soc,
            max_soc: *max_soc,
            balance_weekday: *balance_weekday,
            solar_discharge_block_threshold: *solar_discharge_block_threshold,
            mqtt_timeout_secs: mqtt_timeout.as_secs(),
        }
    }

    /// The configuration that the entries of a file give, and what there is to
    /// say of them. A connection setting that is missing or wrong, and anything
    /// about the device, is fatal; a knob that is wrong and a key that is
    /// unknown come back as warnings.
    pub fn from_table(root: &Vec<(String, Toml)>) -> (out: Result<(Config, Vec<String>), String>)
        ensures
            match out {
                Ok((config, warnings)) => {
                    &&& problem(entries_of(root@)) is None
                    &&& config_reads(entries_of(root@), config)
                    &&& views(warnings@) == warnings_of(entries_of(root@))
                },
                Err(e) => problem(entries_of(root@)) == Some(e@),
            },
    {
        let device = match take_device(root) {
            Ok(device) => device,
            Err(e) => {
                return Err(e);
            },
        };
        let mqtt = match read_mqtt(root) {
            Ok(mqtt) => mqtt,
            Err(e) => {
                return Err(e);
            },
        };
        let (shelly, shelly_said) = match read_shelly(root) {
            Ok(pair) => pair,
            Err(e) => {
                return Err(e);
            },
        };
        let meter = match read_meter(root) {
            Ok(meter) => meter,
            Err(e) => {
                return Err(e);
            },
        };
        if let Some(e) = check_coherent(&device, &mqtt, &shelly, &meter, Ghost(entries_of(root@))) {
            return Err(e);
        }
        let web = match read_web(root) {
            Ok(web) => web,
            Err(e) => {
                return Err(e);
            },
        };
        let mut warnings = shelly_said;
        let ha_publish_prefix = match read_text_knob(
            root,
            "homeassistant",
            "publish_prefix",
            "homeassistant.publish_prefix",
            "zendure",
            "\"zendure\"",
            &mut warnings,
        ) {
            Ok(prefix) => prefix,
            Err(e) => {
                return Err(e);
            },
        };
        let clock = match open_section(root, "clock") {
            Ok(clock) => clock,
            Err(e) => {
                return Err(e);
            },
        };
        let reading = match look(clock, "timezone") {
            Some(toml) => Some(timezone_of(toml)),
            None => None,
        };
        let timezone = lenient(
            "clock.timezone",
            reading,
            "UTC".to_owned(),
            "TimezoneName(UTC)",
            &mut warnings,
        );
        let journal_path = match read_path_knob(
        root,
        "journal",
            "path",
            "journal.path",
            DEFAULT_JOURNAL_PATH,
            "\"/var/lib/zendure/journal.db\"",
            &mut warnings,
        ) {
            Ok(path) => path,
            Err(e) => {
                return Err(e);
            },
        };
        let journal = match open_section(root, "journal") {
            Ok(journal) => journal,
            Err(e) => {
                return Err(e);
            },
        };
        let ninety = match RetentionDays::new(90) {
            Some(days) => days,
            None => {
                return Err(String::new());
            },
        };
        let reading = match look(journal, "retention_days") {
            Some(toml) => Some(days_of(toml)),
            None => None,
        };
        let journal_retention_days = lenient(
            "journal.retention_days",
            reading,
            ninety,
            "RetentionDays(90)",
            &mut warnings,
        );
        let rte_state_path = match read_path_knob(
        root,
        "rte",
            "state_path",
            "rte.state_path",
            DEFAULT_RTE_STATE_PATH,
            "\"/var/lib/zendure/rte_state.json\"",
            &mut warnings,
        ) {
            Ok(path) => path,
            Err(e) => {
                return Err(e);
            },
        };
        let log_filter = match read_text_knob(
            root,
            "logging",
            "filter",
            "logging.filter",
            "zendure=info",
            "\"zendure=info\"",
            &mut warnings,
        ) {
            Ok(filter) => filter,
            Err(e) => {
                return Err(e);
            },
        };
        let (tuning, tuning_said) = match read_tuning(root) {
            Ok(pair) => pair,
            Err(e) => {
                return Err(e);
            },
        };
        let ghost before_tuning = warnings@;
        let ghost said = tuning_said@;
        let mut more = tuning_said;
        warnings.append(&mut more);
        proof {
            assert(views(before_tuning + said) =~= views(before_tuning) + views(said));
        }
        let synthetic = match meter {
            MeterConfig::Synthetic { .. } => true,
            MeterConfig::Shelly => false,
        };
        push_strays(root, synthetic, &mut warnings);
        let config = Config {
            mqtt,
            device,
            shelly,
            meter,
            web,
            ha_publish_prefix,
            charge_margin: tuning.charge_margin,
            discharge_margin: tuning.discharge_margin,
            charge_start_threshold: tuning.charge_start_threshold,
            discharge_start_threshold: tuning.discharge_start_threshold,
            min_mode_duration: Duration::from_secs(tuning.min_mode_duration_secs),
            min_decision_interval: Duration::from_secs(tuning.min_decision_interval_secs),
            idle_timeout: Duration::from_secs(tuning.idle_timeout_secs),
            cycle_warn_threshold: tuning.cycle_warn_threshold,
            min_soc: tuning.min_soc,
            max_soc: tuning.max_soc,
            balance_weekday: tuning.balance_weekday,
            solar_discharge_block_threshold: tuning.solar_discharge_block_threshold,
            min_idle_before_discharge: Duration::from_secs(tuning.min_idle_before_discharge_secs),
            timezone,
            mqtt_timeout: Duration::from_secs(tuning.mqtt_timeout_secs),
            journal_path,
            journal_retention_days,
            rte_state_path,
            log_filter,
        };
        Ok((config, warnings))
    }

    /// The configuration that the text of a file gives.
    pub fn from_toml_str(text: &str) -> (out: Result<(Config, Vec<String>), String>)
        ensures
            match out {
                Ok((config, warnings)) => {
                    &&& toml_of(text@) matches Ok(Tree::Table(root))
                    &&& problem(root) is None
                    &&& config_reads(root, config)
                    &&& views(warnings@) == warnings_of(root)
                },
                Err(e) => match toml_of(text@) {
                    Ok(Tree::Table(root)) => problem(root) == Some(e@),
                    Ok(_) => false,
                    Err(error) => e@ == error,
                },
            },
    {
        match toml_tree::parse(text) {
            Ok(root) => Config::from_table(&root),
            Err(e) => Err(e),
        }
    }
}

impl DeviceConfig {
    /// What the box is called before anything has been heard from it.
    pub open spec fn spec_identity(self) -> Seq<char> {
        match self {
            DeviceConfig::Zendure { sn, .. } => sn@,
            DeviceConfig::Virtual { id, .. } => id@,
        }
    }

    pub fn identity(&self) -> (out: &str)
        ensures
            out@ == self.spec_identity(),
    {
        match self {
            DeviceConfig::Zendure { sn, .. } => sn.as_str(),
            DeviceConfig::Virtual { id, .. } => id.as_str(),
        }
    }

    /// How often the device is polled. A simulated one has no network to go
    /// easy on, and is polled at the pace of a real one.
    pub fn poll_interval(&self) -> (out: Duration)
        ensures
            out == match *self {
                DeviceConfig::Zendure { poll_interval, .. } => poll_interval,
                DeviceConfig::Virtual { .. } => (Duration { secs: 10, millis: 0 }),
            },
    {
        match self {
            DeviceConfig::Zendure { poll_interval, .. } => *poll_interval,
            DeviceConfig::Virtual { .. } => Duration::from_secs(10),
        }
    }
}

// --- showing -------------------------------------------------------------------

/// A span of whole seconds as it is shown.
pub open spec fn shown_secs(d: Duration) -> Seq<char> {
    if d.secs == 0 {
        "0ns"@
    } else {
        decimal(d.secs as nat) + "s"@
    }
}

fn push_secs(out: &mut String, d: Duration)
    ensures
        final(out)@ == old(out)@ + shown_secs(d),
{
    if d.secs == 0 {
        out.append("0ns");
    } else {
        text::push_decimal(out, d.secs as u128);
        out.append("s");
    }
    assert(out@ =~= old(out)@ + shown_secs(d));
}

/// A threshold as it is shown: at either end of the range, it is beyond every
/// number.
pub open spec fn shown_threshold(mw: i64) -> Seq<char> {
    if mw == i64::MAX {
        "inf"@
    } else if mw == i64::MIN {
        "-inf"@
    } else {
        in_full(mw as int)
    }
}

fn push_threshold(out: &mut String, mw: i64)
    ensures
        final(out)@ == old(out)@ + shown_threshold(mw),
{
    if mw == i64::MAX {
        out.append("inf");
    } else if mw == i64::MIN {
        out.append("-inf");
    } else {
        text::push_in_full(out, mw);
    }
}

/// An optional text as it is shown.
pub open spec fn shown_option(s: Option<String>) -> Seq<char> {
    match s {
        Some(s) => "Some("@ + quoted(s@) + ")"@,
        None => "None"@,
    }
}

fn push_option(out: &mut String, s: &Option<String>)
    ensures
        final(out)@ == old(out)@ + shown_option(*s),
{
    match s {
        Some(s) => {
            out.append("Some(");
            text::push_quoted(out, s.as_str());
            out.append(")");
            assert(out@ =~= old(out)@ + ("Some("@ + quoted(s@) + ")"@));
        },
        None => {
            out.append("None");
        },
    }
}

impl MqttConfig {
    /// The broker as it is shown. Of a password, only that there is one.
    pub open spec fn shown(self) -> Seq<char> {
        "MqttConfig { host: "@ + quoted(self.host@) + ", port: "@ + decimal(self.port as nat)
            + ", username: "@ + shown_option(self.username) + ", password: "@ + (
        if self.password is Some {
            "Some(\"<redacted>\")"@
        } else {
            "None"@
        }) + ", client_id: "@ + quoted(self.client_id@) + " }"@
    }

    /// The broker as it is shown, without its password.
    pub fn describe(&self) -> (out: String)
        ensures
            out@ == self.shown(),
    {
        let mut out = "MqttConfig { host: ".to_owned();
        text::push_quoted(&mut out, self.host.as_str());
        out.append(", port: ");
        text::push_decimal(&mut out, self.port as u128);
        out.append(", username: ");
        push_option(&mut out, &self.username);
        out.append(", password: ");
        if self.password.is_some() {
            out.append("Some(\"<redacted>\")");
        } else {
            out.append("None");
        }
        out.append(", client_id: ");
        text::push_quoted(&mut out, self.client_id.as_str());
        out.append(" }");
        out
    }
}

/// A capacity in watt-hours, to the thousandth.
pub open spec fn shown_pack(pack: WattHours) -> Seq<char> {
    "WattHours("@ + in_full(saturated_i64(pack.parts as int / 7200)) + ")"@
}

pub open spec fn shown_packs(packs: Seq<WattHours>) -> Seq<Seq<char>> {
    packs.map_values(|p: WattHours| shown_pack(p))
}

fn describe_packs(packs: &Vec<WattHours>) -> (out: Vec<String>)
    ensures
        views(out@) == shown_packs(packs@),
{
    let mut out: Vec<String> = Vec::new();
    for i in 0..packs.len()
        invariant
            views(out@) == shown_packs(packs@).take(i as int),
    {
        let parts: i128 = packs[i].parts;
        // Rounded down, below zero too.
        let milli: i128 = if parts >= 0 {
            parts / 7200
        } else {
            -((-(parts + 1)) / 7200) - 1
        };
        let mut one = "WattHours(".to_owned();
        text::push_in_full(&mut one, saturate_i64(milli));
        one.append(")");
        assert(one@ =~= shown_pack(packs@[i as int]));
        let ghost so_far = out@;
        out.push(one);
        assert(views(out@) =~= views(so_far).push(one@));
        assert(shown_packs(packs@).take(i + 1) =~= shown_packs(packs@).take(i as int).push(one@));
    }
    assert(views(out@) =~= shown_packs(packs@));
    out
}

impl DeviceConfig {
    pub open spec fn shown(self) -> Seq<char> {
        match self {
            DeviceConfig::Zendure { ip, sn, poll_interval } => "Zendure { ip: "@ + quoted(ip@)
                + ", sn: "@ + quoted(sn@) + ", poll_interval: "@ + shown_secs(poll_interval)
                + " }"@,
            DeviceConfig::Virtual { id, packs, soc, charge_efficiency, discharge_efficiency } =>
                "Virtual { id: "@ + quoted(id@) + ", packs: ["@ + joined(shown_packs(packs@), ", "@)
                + "], soc: Soc("@ + decimal(soc@ as nat) + "), charge_efficiency: Efficiency("@
                + in_full(charge_efficiency@) + "), discharge_efficiency: Efficiency("@ + in_full(
                discharge_efficiency@,
            ) + ") }"@,
        }
    }

    /// The device as it is shown.
    pub fn describe(&self) -> (out: String)
        ensures
            out@ == self.shown(),
    {
        match self {
            DeviceConfig::Zendure { ip, sn, poll_interval } => {
                let mut out = "Zendure { ip: ".to_owned();
                text::push_quoted(&mut out, ip.as_str());
                out.append(", sn: ");
                text::push_quoted(&mut out, sn.as_str());
                out.append(", poll_interval: ");
                push_secs(&mut out, *poll_interval);
                out.append(" }");
                assert(out@ =~= self.shown());
                out
            },
            DeviceConfig::Virtual { id, packs, soc, charge_efficiency, discharge_efficiency } => {
                let mut out = "Virtual { id: ".to_owned();
                text::push_quoted(&mut out, id.as_str());
                out.append(", packs: [");
                out.append(text::join(describe_packs(packs).as_slice(), ", ").as_str());
                out.append("], soc: Soc(");
                text::push_decimal(&mut out, soc.get() as u128);
                out.append("), charge_efficiency: Efficiency(");
                text::push_in_full(&mut out, charge_efficiency.milli_percent() as i64);
                out.append("), discharge_efficiency: Efficiency(");
                text::push_in_full(&mut out, discharge_efficiency.milli_percent() as i64);
                out.append(") }");
                out
            },
        }
    }
}

pub open spec fn shown_mqtt(mqtt: Option<MqttConfig>) -> Seq<char> {
    match mqtt {
        Some(mqtt) => "Some("@ + mqtt.shown() + ")"@,
        None => "None"@,
    }
}

fn push_mqtt(out: &mut String, mqtt: &Option<MqttConfig>)
    ensures
        final(out)@ == old(out)@ + shown_mqtt(*mqtt),
{
    match mqtt {
        Some(mqtt) => {
            out.append("Some(");
            out.append(mqtt.describe().as_str());
            out.append(")");
            assert(out@ =~= old(out)@ + ("Some("@ + mqtt.shown() + ")"@));
        },
        None => {
            out.append("None");
        },
    }
}

impl SolarPhase {
    pub open spec fn spec_name(self) -> Seq<char> {
        match self {
            SolarPhase::A => "A"@,
            SolarPhase::B => "B"@,
            SolarPhase::C => "C"@,
        }
    }

    pub fn as_str(self) -> (out: &'static str)
        ensures
            out@ == self.spec_name(),
    {
        match self {
            SolarPhase::A => "A",
            SolarPhase::B => "B",
            SolarPhase::C => "C",
        }
    }
}

pub open spec fn shown_shelly(shelly: Option<ShellyConfig>) -> Seq<char> {
    match shelly {
        Some(s) => "Some(ShellyConfig { topic: "@ + quoted(s.topic@) + ", solar_phase: "@
            + s.solar_phase.spec_name() + " })"@,
        None => "None"@,
    }
}

fn push_shelly(out: &mut String, shelly: &Option<ShellyConfig>)
    ensures
        final(out)@ == old(out)@ + shown_shelly(*shelly),
{
    match shelly {
        Some(s) => {
            out.append("Some(ShellyConfig { topic: ");
            text::push_quoted(out, s.topic.as_str());
            out.append(", solar_phase: ");
            out.append(s.solar_phase.as_str());
            out.append(" })");
            assert(out@ =~= old(out)@ + shown_shelly(*shelly));
        },
        None => {
            out.append("None");
        },
    }
}

pub open spec fn shown_meter(meter: MeterConfig) -> Seq<char> {
    match meter {
        MeterConfig::Shelly => "Shelly"@,
        MeterConfig::Synthetic { base_load, solar_peak } => "Synthetic { base_load: Watts("@
            + signed(base_load.w as int) + "), solar_peak: Watts("@ + signed(solar_peak.w as int)
            + ") }"@,
    }
}

fn push_meter(out: &mut String, meter: &MeterConfig)
    ensures
        final(out)@ == old(out)@ + shown_meter(*meter),
{
    match meter {
        MeterConfig::Shelly => {
            out.append("Shelly");
        },
        MeterConfig::Synthetic { base_load, solar_peak } => {
            out.append("Synthetic { base_load: Watts(");
            text::push_signed(out, base_load.w as i128);
            out.append("), solar_peak: Watts(");
            text::push_signed(out, solar_peak.w as i128);
            out.append(") }");
            assert(out@ =~= old(out)@ + shown_meter(*meter));
        },
    }
}

/// Where the dashboard is served.
pub open spec fn shown_web(web: Option<WebConfig>) -> Seq<char> {
    match web {
        Some(w) => "Some(WebConfig { bind_address: "@ + w.bind_address.shown() + ", port: "@
            + decimal(w.port as nat) + " })"@,
        None => "None"@,
    }
}

fn push_web(out: &mut String, web: &Option<WebConfig>)
    ensures
        final(out)@ == old(out)@ + shown_web(*web),
{
    match web {
        Some(w) => {
            out.append("Some(WebConfig { bind_address: ");
            w.bind_address.push_to(out);
            out.append(", port: ");
            text::push_decimal(out, w.port as u128);
            out.append(" })");
            assert(out@ =~= old(out)@ + shown_web(*web));
        },
        None => {
            out.append("None");
        },
    }
}

pub open spec fn shown_day(day: Option<Weekday>) -> Seq<char> {
    match day {
        Some(day) => "Some("@ + day.spec_name() + ")"@,
        None => "None"@,
    }
}

fn push_day(out: &mut String, day: Option<Weekday>)
    ensures
        final(out)@ == old(out)@ + shown_day(day),
{
    match day {
        Some(day) => {
            out.append("Some(");
            out.append(day.as_str());
            out.append(")");
            assert(out@ =~= old(out)@ + ("Some("@ + day.spec_name() + ")"@));
        },
        None => {
            out.append("None");
        },
    }
}

impl Config {
    /// The configuration as it is shown.
    pub open spec fn shown(self) -> Seq<char> {
        "Config { mqtt: "@ + shown_mqtt(self.mqtt)
            + ", device: "@ + self.device.shown()
            + ", shelly: "@ + shown_shelly(self.shelly)
            + ", meter: "@ + shown_meter(self.meter)
            + ", web: "@ + shown_web(self.web)
            + ", ha_publish_prefix: "@ + quoted(self.ha_publish_prefix@)
            + ", charge_margin: PowerMargin("@ + decimal(self.charge_margin.watts as nat)
            + "), discharge_margin: PowerMargin("@ + decimal(self.discharge_margin.watts as nat)
            + "), charge_start_threshold: GridPower("@ + shown_threshold(self.charge_start_threshold.mw)
            + "), discharge_start_threshold: GridPower("@ + shown_threshold(self.discharge_start_threshold.mw)
            + "), min_mode_duration: "@ + shown_secs(self.min_mode_duration)
            + ", min_decision_interval: "@ + shown_secs(self.min_decision_interval)
            + ", idle_timeout: "@ + shown_secs(self.idle_timeout)
            + ", cycle_warn_threshold: "@ + decimal(self.cycle_warn_threshold as nat)
            + ", min_soc: Soc("@ + decimal(self.min_soc@ as nat)
            + "), max_soc: Soc("@ + decimal(self.max_soc@ as nat)
            + "), balance_weekday: "@ + shown_day(self.balance_weekday)
            + ", solar_discharge_block_threshold: SolarPower("@ + shown_threshold(self.solar_discharge_block_threshold.mw)
            + "), min_idle_before_discharge: "@ + shown_secs(self.min_idle_before_discharge)
            + ", timezone: "@ + self.timezone@
            + ", mqtt_timeout: "@ + shown_secs(self.mqtt_timeout)
            + ", journal_path: "@ + quoted(self.journal_path@)
            + ", journal_retention_days: RetentionDays("@ + decimal(self.journal_retention_days@ as nat)
            + "), rte_state_path: "@ + quoted(self.rte_state_path@)
            + ", log_filter: "@ + quoted(self.log_filter@)
            + " }"@
    }

    /// The configuration as it is shown to an operator. A broker's password is
    /// no part of it.
    pub fn describe(&self) -> (out: String)
        ensures
            out@ == self.shown(),
    {
        let mut out = "Config { mqtt: ".to_owned();
        push_mqtt(&mut out, &self.mqtt);
        out.append(", device: ");
        out.append(self.device.describe().as_str());
        out.append(", shelly: ");
        push_shelly(&mut out, &self.shelly);
        out.append(", meter: ");
        push_meter(&mut out, &self.meter);
        out.append(", web: ");
        push_web(&mut out, &self.web);
        out.append(", ha_publish_prefix: ");
        text::push_quoted(&mut out, self.ha_publish_prefix.as_str());
        out.append(", charge_margin: PowerMargin(");
        text::push_decimal(&mut out, self.charge_margin.watts as u128);
        out.append("), discharge_margin: PowerMargin(");
        text::push_decimal(&mut out, self.discharge_margin.watts as u128);
        out.append("), charge_start_threshold: GridPower(");
        push_threshold(&mut out, self.charge_start_threshold.mw);
        out.append("), discharge_start_threshold: GridPower(");
        push_threshold(&mut out, self.discharge_start_threshold.mw);
        out.append("), min_mode_duration: ");
        push_secs(&mut out, self.min_mode_duration);
        out.append(", min_decision_interval: ");
        push_secs(&mut out, self.min_decision_interval);
        out.append(", idle_timeout: ");
        push_secs(&mut out, self.idle_timeout);
        out.append(", cycle_warn_threshold: ");
        text::push_decimal(&mut out, self.cycle_warn_threshold as u128);
        out.append(", min_soc: Soc(");
        text::push_decimal(&mut out, self.min_soc.get() as u128);
        out.append("), max_soc: Soc(");
        text::push_decimal(&mut out, self.max_soc.get() as u128);
        out.append("), balance_weekday: ");
        push_day(&mut out, self.balance_weekday);
        out.append(", solar_discharge_block_threshold: SolarPower(");
        push_threshold(&mut out, self.solar_discharge_block_threshold.mw);
        out.append("), min_idle_before_discharge: ");
        push_secs(&mut out, self.min_idle_before_discharge);
        out.append(", timezone: ");
        out.append(self.timezone.as_str());
        out.append(", mqtt_timeout: ");
        push_secs(&mut out, self.mqtt_timeout);
        out.append(", journal_path: ");
        text::push_quoted(&mut out, self.journal_path.as_str());
        out.append(", journal_retention_days: RetentionDays(");
        text::push_decimal(&mut out, self.journal_retention_days.get() as u128);
        out.append("), rte_state_path: ");
        text::push_quoted(&mut out, self.rte_state_path.as_str());
        out.append(", log_filter: ");
        text::push_quoted(&mut out, self.log_filter.as_str());
        out.append(" }");
        out
    }
}

// --- laws ----------------------------------------------------------------------

/// What is shown of a configuration does not depend on the broker's password,
/// beyond there being one.
pub proof fn showing_hides_the_password(a: Config, b: Config)
    requires
        a.mqtt matches Some(m) && b.mqtt == Some(
            (MqttConfig { password: b.mqtt->0.password, ..m }),
        ) && (m.password is Some <==> b.mqtt->0.password is Some),
        a == (Config { mqtt: a.mqtt, ..b }),
    ensures
        a.shown() == b.shown(),
{
}

/// The tuning of a session is decided by the knobs alone: nothing about the
/// broker, the device, the meter, the dashboard, paths, logging or the timezone
/// reaches it.
pub proof fn a_session_holds_no_connection(a: Config, b: Config)
    requires
        a == (Config {
            mqtt: a.mqtt,
            device: a.device,
            shelly: a.shelly,
            meter: a.meter,
            web: a.web,
            ha_publish_prefix: a.ha_publish_prefix,
            journal_path: a.journal_path,
            journal_retention_days: a.journal_retention_days,
            rte_state_path: a.rte_state_path,
            log_filter: a.log_filter,
            timezone: a.timezone,
            ..b
        }),
    ensures
        a.spec_session() == b.spec_session(),
{
}

/// Only the named sections can stop the reader: two files that agree on them,
/// and on what is a table, are stopped alike, whatever else they hold.
pub proof fn only_known_sections_stop_the_reader(a: Table, b: Table)
    requires
        find(a, "device"@) == find(b, "device"@),
        find(a, "mqtt"@) == find(b, "mqtt"@),
        find(a, "shelly"@) == find(b, "shelly"@),
        find(a, "meter"@) == find(b, "meter"@),
        find(a, "web"@) == find(b, "web"@),
        section_problem(a, "homeassistant"@) == section_problem(b, "homeassistant"@),
        section_problem(a, "clock"@) == section_problem(b, "clock"@),
        section_problem(a, "journal"@) == section_problem(b, "journal"@),
        section_problem(a, "rte"@) == section_problem(b, "rte"@),
        section_problem(a, "logging"@) == section_problem(b, "logging"@),
        section_problem(a, "tuning"@) == section_problem(b, "tuning"@),
    ensures
        problem(a) == problem(b),
{
}

/// A knob that cannot be read is worth its default, and one warning.
pub proof fn a_wrong_knob_keeps_its_default<T>(
    path: Seq<char>,
    reading: Option<Reading<T>>,
    default: T,
    shown: Seq<char>,
)
    requires
        reading matches Some(Err(_)),
    ensures
        kept(reading, default) == default,
        warned(path, fault(reading), shown).len() == 1,
{
}

/// What a table says under a key in whole numbers up to `most`, or else the default.
pub open spec fn whole_or(table: Table, key: Seq<char>, most: int, default: int) -> int {
    match find(table, key) {
        Some(Tree::Integer(n)) => if 0 <= n && n <= most {
            n
        } else {
            default
        },
        _ => default,
    }
}

/// Each knob that holds a whole number has what the file gives under its own name, and its
/// own default where the file gives nothing that fits.
pub proof fn a_file_sets_each_whole_knob(root: Table, knobs: Table, t: SessionConfig)
    requires
        tuning_reads(root, t),
        find(root, "tuning"@) == Some(Tree::Table(knobs)),
    ensures
        t.charge_margin.watts == whole_or(knobs, "charge_margin"@, 0xffff_ffff, 50),
        t.discharge_margin.watts == whole_or(knobs, "discharge_margin"@, 0xffff_ffff, 5),
        t.min_mode_duration_secs == whole_or(knobs, "min_mode_duration_secs"@, 0xffff_ffff_ffff_ffff, 10),
        t.min_decision_interval_secs == whole_or(knobs, "min_decision_interval_secs"@, 0xffff_ffff_ffff_ffff, 5),
        t.idle_timeout_secs == whole_or(knobs, "idle_timeout_secs"@, 0xffff_ffff_ffff_ffff, 300),
        t.min_idle_before_discharge_secs == whole_or(knobs, "min_idle_before_discharge_secs"@, 0xffff_ffff_ffff_ffff, 300),
        t.cycle_warn_threshold == whole_or(knobs, "cycle_warn_threshold"@, 0xffff_ffff, 200),
        t.mqtt_timeout_secs == whole_or(knobs, "mqtt_timeout_secs"@, 0xffff_ffff_ffff_ffff, 60),
        t.min_soc@ == if whole_or(knobs, "min_soc"@, 0xffff_ffff, 10) > 100 {
            100
        } else {
            whole_or(knobs, "min_soc"@, 0xffff_ffff, 10)
        },
        t.max_soc@ == if whole_or(knobs, "max_soc"@, 0xffff_ffff, 100) > 100 {
            100
        } else {
            whole_or(knobs, "max_soc"@, 0xffff_ffff, 100)
        },
{
}

/// What a table says under a key in watts, in thousandths, or else the default. What is no
/// number is as `nan` says.
pub open spec fn watts_or(table: Table, key: Seq<char>, nan: int, default: int) -> int {
    match find(table, key) {
        Some(Tree::Integer(n)) => saturated_i64(1000 * n),
        Some(Tree::Float(s)) => match read_threshold(Tree::Float(s), nan) {
            Ok(m) => m,
            Err(_) => default,
        },
        _ => default,
    }
}

/// Each threshold has what the file gives under its own name, in whole watts or with a
/// fraction. One that is no number is never reached, by any reading.
pub proof fn a_file_sets_each_threshold(root: Table, knobs: Table, t: SessionConfig)
    requires
        tuning_reads(root, t),
        find(root, "tuning"@) == Some(Tree::Table(knobs)),
    ensures
        t.charge_start_threshold.mw == watts_or(
            knobs,
            "charge_start_threshold"@,
            -0x8000_0000_0000_0000,
            -100_000,
        ),
        t.discharge_start_threshold.mw == watts_or(
            knobs,
            "discharge_start_threshold"@,
            0x7fff_ffff_ffff_ffff,
            0,
        ),
        t.solar_discharge_block_threshold.mw == watts_or(
            knobs,
            "solar_discharge_block_threshold"@,
            -0x8000_0000_0000_0000,
            0,
        ),
        find(knobs, "balance_weekday"@) is None ==> t.balance_weekday == Some(Weekday::Mon),
        find(knobs, "balance_weekday"@) matches Some(tree) ==> read_balance_day(tree) matches Ok(
            day,
        ) ==> t.balance_weekday == day,
        find(knobs, "balance_weekday"@) matches Some(tree) ==> read_balance_day(tree) is Err
            ==> t.balance_weekday == Some(Weekday::Mon),
{
}

/// A file without knobs gives every default.
pub proof fn a_file_without_knobs_gives_the_defaults(root: Table, t: SessionConfig)
    requires
        tuning_reads(root, t),
        find(root, "tuning"@) is None,
    ensures
        t.charge_margin.watts == 50,
        t.discharge_margin.watts == 5,
        t.charge_start_threshold.mw == -100_000,
        t.discharge_start_threshold.mw == 0,
        t.min_mode_duration_secs == 10,
        t.min_decision_interval_secs == 5,
        t.idle_timeout_secs == 300,
        t.min_idle_before_discharge_secs == 300,
        t.cycle_warn_threshold == 200,
        t.min_soc@ == 10,
        t.max_soc@ == 100,
        t.balance_weekday == Some(Weekday::Mon),
        t.solar_discharge_block_threshold.mw == 0,
        t.mqtt_timeout_secs == 60,
{
}

/// A knob with a fault is warned of, by its name, with the fault and the default; one that
/// is not there has none.
pub open spec fn is_warned_of(
    said: Seq<Seq<char>>,
    there: bool,
    fault: Option<Seq<char>>,
    path: Seq<char>,
    default: Seq<char>,
) -> bool {
    &&& fault matches Some(e) ==> said.contains(
        path + " ignored ("@ + e + "); keeping "@ + default,
    )
    &&& !there ==> fault is None
}

/// What either of two lists says, both say together.
proof fn both_stay(a: Seq<Seq<char>>, b: Seq<Seq<char>>)
    ensures
        forall|x: Seq<char>| #[trigger] a.contains(x) ==> (a + b).contains(x),
        forall|x: Seq<char>| #[trigger] b.contains(x) ==> (a + b).contains(x),
{
    assert forall|x: Seq<char>| #[trigger] a.contains(x) implies (a + b).contains(x) by {
        let i = choose|i: int| 0 <= i < a.len() && a[i] == x;
        assert((a + b)[i] == x);
    }
    assert forall|x: Seq<char>| #[trigger] b.contains(x) implies (a + b).contains(x) by {
        let i = choose|i: int| 0 <= i < b.len() && b[i] == x;
        assert((a + b)[a.len() + i] == x);
    }
}

/// The one warning of a knob is among its own.
proof fn a_fault_is_told(path: Seq<char>, fault: Option<Seq<char>>, default: Seq<char>)
    ensures
        fault matches Some(e) ==> warned(path, fault, default).contains(
            path + " ignored ("@ + e + "); keeping "@ + default,
        ),
{
    if let Some(e) = fault {
        assert(warned(path, fault, default)[0] == path + " ignored ("@ + e + "); keeping "@
            + default);
    }
}

/// What one of many lists says, all say together.
proof fn each_list_is_told(
    w0: Seq<Seq<char>>,
    w1: Seq<Seq<char>>,
    w2: Seq<Seq<char>>,
    w3: Seq<Seq<char>>,
    w4: Seq<Seq<char>>,
    w5: Seq<Seq<char>>,
    w6: Seq<Seq<char>>,
    w7: Seq<Seq<char>>,
    w8: Seq<Seq<char>>,
    w9: Seq<Seq<char>>,
    w10: Seq<Seq<char>>,
    w11: Seq<Seq<char>>,
    w12: Seq<Seq<char>>,
    w13: Seq<Seq<char>>,
)
    ensures
        ({
            let all = w0 + w1 + w2 + w3 + w4 + w5 + w6 + w7 + w8 + w9 + w10 + w11 + w12 + w13;
            &&& forall|x: Seq<char>| #[trigger] w0.contains(x) ==> all.contains(x)
            &&& forall|x: Seq<char>| #[trigger] w1.contains(x) ==> all.contains(x)
            &&& forall|x: Seq<char>| #[trigger] w2.contains(x) ==> all.contains(x)
            &&& forall|x: Seq<char>| #[trigger] w3.contains(x) ==> all.contains(x)
            &&& forall|x: Seq<char>| #[trigger] w4.contains(x) ==> all.contains(x)
            &&& forall|x: Seq<char>| #[trigger] w5.contains(x) ==> all.contains(x)
            &&& forall|x: Seq<char>| #[trigger] w6.contains(x) ==> all.contains(x)
            &&& forall|x: Seq<char>| #[trigger] w7.contains(x) ==> all.contains(x)
            &&& forall|x: Seq<char>| #[trigger] w8.contains(x) ==> all.contains(x)
            &&& forall|x: Seq<char>| #[trigger] w9.contains(x) ==> all.contains(x)
            &&& forall|x: Seq<char>| #[trigger] w10.contains(x) ==> all.contains(x)
            &&& forall|x: Seq<char>| #[trigger] w11.contains(x) ==> all.contains(x)
            &&& forall|x: Seq<char>| #[trigger] w12.contains(x) ==> all.contains(x)
            &&& forall|x: Seq<char>| #[trigger] w13.contains(x) ==> all.contains(x)
        }),
{
    let p0 = w0;
    let p1 = p0 + w1;
    both_stay(p0, w1);
    let p2 = p1 + w2;
    both_stay(p1, w2);
    let p3 = p2 + w3;
    both_stay(p2, w3);
    let p4 = p3 + w4;
    both_stay(p3, w4);
    let p5 = p4 + w5;
    both_stay(p4, w5);
    let p6 = p5 + w6;
    both_stay(p5, w6);
    let p7 = p6 + w7;
    both_stay(p6, w7);
    let p8 = p7 + w8;
    both_stay(p7, w8);
    let p9 = p8 + w9;
    both_stay(p8, w9);
    let p10 = p9 + w10;
    both_stay(p9, w10);
    let p11 = p10 + w11;
    both_stay(p10, w11);
    let p12 = p11 + w12;
    both_stay(p11, w12);
    let p13 = p12 + w13;
    both_stay(p12, w13);
}

/// Every knob that cannot be read is warned of, by its own name and with its own default.
pub proof fn every_wrong_knob_is_warned_of(root: Table)
    ensures
        is_warned_of(
            tuning_warnings(root),
            setting(root, "tuning"@, "charge_margin"@) is Some,
            fault(counts(root, "tuning"@, "charge_margin"@, u32::MAX as int)),
            "tuning.charge_margin"@,
            "PowerMargin(50)"@,
        ),
        is_warned_of(
            tuning_warnings(root),
            setting(root, "tuning"@, "discharge_margin"@) is Some,
            fault(counts(root, "tuning"@, "discharge_margin"@, u32::MAX as int)),
            "tuning.discharge_margin"@,
            "PowerMargin(5)"@,
        ),
        is_warned_of(
            tuning_warnings(root),
            setting(root, "tuning"@, "charge_start_threshold"@) is Some,
            fault(thresholds(root, "tuning"@, "charge_start_threshold"@, i64::MIN as int)),
            "tuning.charge_start_threshold"@,
            "GridPower(-100.0)"@,
        ),
        is_warned_of(
            tuning_warnings(root),
            setting(root, "tuning"@, "discharge_start_threshold"@) is Some,
            fault(thresholds(root, "tuning"@, "discharge_start_threshold"@, i64::MAX as int)),
            "tuning.discharge_start_threshold"@,
            "GridPower(0.0)"@,
        ),
        is_warned_of(
            tuning_warnings(root),
            setting(root, "tuning"@, "min_mode_duration_secs"@) is Some,
            fault(counts(root, "tuning"@, "min_mode_duration_secs"@, u64::MAX as int)),
            "tuning.min_mode_duration_secs"@,
            "10"@,
        ),
        is_warned_of(
            tuning_warnings(root),
            setting(root, "tuning"@, "min_decision_interval_secs"@) is Some,
            fault(counts(root, "tuning"@, "min_decision_interval_secs"@, u64::MAX as int)),
            "tuning.min_decision_interval_secs"@,
            "5"@,
        ),
        is_warned_of(
            tuning_warnings(root),
            setting(root, "tuning"@, "idle_timeout_secs"@) is Some,
            fault(counts(root, "tuning"@, "idle_timeout_secs"@, u64::MAX as int)),
            "tuning.idle_timeout_secs"@,
            "300"@,
        ),
        is_warned_of(
            tuning_warnings(root),
            setting(root, "tuning"@, "min_idle_before_discharge_secs"@) is Some,
            fault(counts(root, "tuning"@, "min_idle_before_discharge_secs"@, u64::MAX as int)),
            "tuning.min_idle_before_discharge_secs"@,
            "300"@,
        ),
        is_warned_of(
            tuning_warnings(root),
            setting(root, "tuning"@, "cycle_warn_threshold"@) is Some,
            fault(counts(root, "tuning"@, "cycle_warn_threshold"@, u32::MAX as int)),
            "tuning.cycle_warn_threshold"@,
            "200"@,
        ),
        is_warned_of(
            tuning_warnings(root),
            setting(root, "tuning"@, "min_soc"@) is Some,
            fault(counts(root, "tuning"@, "min_soc"@, u32::MAX as int)),
            "tuning.min_soc"@,
            "Soc(10)"@,
        ),
        is_warned_of(
            tuning_warnings(root),
            setting(root, "tuning"@, "max_soc"@) is Some,
            fault(counts(root, "tuning"@, "max_soc"@, u32::MAX as int)),
            "tuning.max_soc"@,
            "Soc(100)"@,
        ),
        is_warned_of(
            tuning_warnings(root),
            setting(root, "tuning"@, "balance_weekday"@) is Some,
            fault(balance_days(root, "tuning"@, "balance_weekday"@)),
            "tuning.balance_weekday"@,
            "BalanceDay(Some(Mon))"@,
        ),
        is_warned_of(
            tuning_warnings(root),
            setting(root, "tuning"@, "solar_discharge_block_threshold"@) is Some,
            fault(thresholds(root, "tuning"@, "solar_discharge_block_threshold"@, i64::MIN as int)),
            "tuning.solar_discharge_block_threshold"@,
            "SolarPower(0.0)"@,
        ),
        is_warned_of(
            tuning_warnings(root),
            setting(root, "tuning"@, "mqtt_timeout_secs"@) is Some,
            fault(counts(root, "tuning"@, "mqtt_timeout_secs"@, u64::MAX as int)),
            "tuning.mqtt_timeout_secs"@,
            "60"@,
        ),
{
    let w0 = warned("tuning.charge_margin"@, fault(counts(root, "tuning"@, "charge_margin"@, u32::MAX as int)), "PowerMargin(50)"@);
    let w1 = warned("tuning.discharge_margin"@, fault(counts(root, "tuning"@, "discharge_margin"@, u32::MAX as int)), "PowerMargin(5)"@);
    let w2 = warned("tuning.charge_start_threshold"@, fault(thresholds(root, "tuning"@, "charge_start_threshold"@, i64::MIN as int)), "GridPower(-100.0)"@);
    let w3 = warned("tuning.discharge_start_threshold"@, fault(thresholds(root, "tuning"@, "discharge_start_threshold"@, i64::MAX as int)), "GridPower(0.0)"@);
    let w4 = warned("tuning.min_mode_duration_secs"@, fault(counts(root, "tuning"@, "min_mode_duration_secs"@, u64::MAX as int)), "10"@);
    let w5 = warned("tuning.min_decision_interval_secs"@, fault(counts(root, "tuning"@, "min_decision_interval_secs"@, u64::MAX as int)), "5"@);
    let w6 = warned("tuning.idle_timeout_secs"@, fault(counts(root, "tuning"@, "idle_timeout_secs"@, u64::MAX as int)), "300"@);
    let w7 = warned("tuning.min_idle_before_discharge_secs"@, fault(counts(root, "tuning"@, "min_idle_before_discharge_secs"@, u64::MAX as int)), "300"@);
    let w8 = warned("tuning.cycle_warn_threshold"@, fault(counts(root, "tuning"@, "cycle_warn_threshold"@, u32::MAX as int)), "200"@);
    let w9 = warned("tuning.min_soc"@, fault(counts(root, "tuning"@, "min_soc"@, u32::MAX as int)), "Soc(10)"@);
    let w10 = warned("tuning.max_soc"@, fault(counts(root, "tuning"@, "max_soc"@, u32::MAX as int)), "Soc(100)"@);
    let w11 = warned("tuning.balance_weekday"@, fault(balance_days(root, "tuning"@, "balance_weekday"@)), "BalanceDay(Some(Mon))"@);
    let w12 = warned("tuning.solar_discharge_block_threshold"@, fault(thresholds(root, "tuning"@, "solar_discharge_block_threshold"@, i64::MIN as int)), "SolarPower(0.0)"@);
    let w13 = warned("tuning.mqtt_timeout_secs"@, fault(counts(root, "tuning"@, "mqtt_timeout_secs"@, u64::MAX as int)), "60"@);
    each_list_is_told(w0, w1, w2, w3, w4, w5, w6, w7, w8, w9, w10, w11, w12, w13);
    a_fault_is_told("tuning.charge_margin"@, fault(counts(root, "tuning"@, "charge_margin"@, u32::MAX as int)), "PowerMargin(50)"@);
    a_fault_is_told("tuning.discharge_margin"@, fault(counts(root, "tuning"@, "discharge_margin"@, u32::MAX as int)), "PowerMargin(5)"@);
    a_fault_is_told("tuning.charge_start_threshold"@, fault(thresholds(root, "tuning"@, "charge_start_threshold"@, i64::MIN as int)), "GridPower(-100.0)"@);
    a_fault_is_told("tuning.discharge_start_threshold"@, fault(thresholds(root, "tuning"@, "discharge_start_threshold"@, i64::MAX as int)), "GridPower(0.0)"@);
    a_fault_is_told("tuning.min_mode_duration_secs"@, fault(counts(root, "tuning"@, "min_mode_duration_secs"@, u64::MAX as int)), "10"@);
    a_fault_is_told("tuning.min_decision_interval_secs"@, fault(counts(root, "tuning"@, "min_decision_interval_secs"@, u64::MAX as int)), "5"@);
    a_fault_is_told("tuning.idle_timeout_secs"@, fault(counts(root, "tuning"@, "idle_timeout_secs"@, u64::MAX as int)), "300"@);
    a_fault_is_told("tuning.min_idle_before_discharge_secs"@, fault(counts(root, "tuning"@, "min_idle_before_discharge_secs"@, u64::MAX as int)), "300"@);
    a_fault_is_told("tuning.cycle_warn_threshold"@, fault(counts(root, "tuning"@, "cycle_warn_threshold"@, u32::MAX as int)), "200"@);
    a_fault_is_told("tuning.min_soc"@, fault(counts(root, "tuning"@, "min_soc"@, u32::MAX as int)), "Soc(10)"@);
    a_fault_is_told("tuning.max_soc"@, fault(counts(root, "tuning"@, "max_soc"@, u32::MAX as int)), "Soc(100)"@);
    a_fault_is_told("tuning.balance_weekday"@, fault(balance_days(root, "tuning"@, "balance_weekday"@)), "BalanceDay(Some(Mon))"@);
    a_fault_is_told("tuning.solar_discharge_block_threshold"@, fault(thresholds(root, "tuning"@, "solar_discharge_block_threshold"@, i64::MIN as int)), "SolarPower(0.0)"@);
    a_fault_is_told("tuning.mqtt_timeout_secs"@, fault(counts(root, "tuning"@, "mqtt_timeout_secs"@, u64::MAX as int)), "60"@);
    assert(tuning_warnings(root) == w0 + w1 + w2 + w3 + w4 + w5 + w6 + w7 + w8 + w9 + w10 + w11 + w12 + w13);
}

/// A file whose knobs are right is not warned of.
pub proof fn a_right_file_is_not_warned_of(root: Table)
    requires
        fault(counts(root, "tuning"@, "charge_margin"@, u32::MAX as int)) is None,
        fault(counts(root, "tuning"@, "discharge_margin"@, u32::MAX as int)) is None,
        fault(thresholds(root, "tuning"@, "charge_start_threshold"@, i64::MIN as int)) is None,
        fault(thresholds(root, "tuning"@, "discharge_start_threshold"@, i64::MAX as int)) is None,
        fault(counts(root, "tuning"@, "min_mode_duration_secs"@, u64::MAX as int)) is None,
        fault(counts(root, "tuning"@, "min_decision_interval_secs"@, u64::MAX as int)) is None,
        fault(counts(root, "tuning"@, "idle_timeout_secs"@, u64::MAX as int)) is None,
        fault(counts(root, "tuning"@, "min_idle_before_discharge_secs"@, u64::MAX as int)) is None,
        fault(counts(root, "tuning"@, "cycle_warn_threshold"@, u32::MAX as int)) is None,
        fault(counts(root, "tuning"@, "min_soc"@, u32::MAX as int)) is None,
        fault(counts(root, "tuning"@, "max_soc"@, u32::MAX as int)) is None,
        fault(balance_days(root, "tuning"@, "balance_weekday"@)) is None,
        fault(thresholds(root, "tuning"@, "solar_discharge_block_threshold"@, i64::MIN as int)) is None,
        fault(counts(root, "tuning"@, "mqtt_timeout_secs"@, u64::MAX as int)) is None,
    ensures
        tuning_warnings(root).len() == 0,
{
}

/// The device of a file that is on the network has the address, the serial number and the
/// pace of polling that the file gives.
pub proof fn a_file_gives_the_device(
    root: Table,
    table: Table,
    device: DeviceConfig,
    ip: Seq<char>,
    sn: Seq<char>,
    secs: int,
)
    requires
        device_reads(root, device),
        find(root, "device"@) == Some(Tree::Array(seq![Tree::Table(table)])),
        find(table, "kind"@) == Some(Tree::Text("zendure"@)),
        find(table, "ip"@) == Some(Tree::Text(ip)),
        find(table, "sn"@) == Some(Tree::Text(sn)),
        find(table, "poll_interval_secs"@) == Some(Tree::Integer(secs)),
        0 <= secs <= u64::MAX,
    ensures
        device matches DeviceConfig::Zendure { ip: host, sn: serial, poll_interval } && host@ == ip
            && serial@ == sn && poll_interval@ == secs * 1000,
        device.spec_identity() == sn,
{
    reveal_strlit("zendure");
    reveal_strlit("virtual");
    assert("zendure"@[0] == 'z' && "virtual"@[0] == 'v');
}

/// A simulated device has the name, the packs, the charge and the efficiencies that the
/// file gives. A charge is at most full, and an efficiency at most the whole.
pub proof fn a_file_gives_the_simulated_device(
    root: Table,
    table: Table,
    device: DeviceConfig,
    id: Seq<char>,
    sizes: Seq<Tree>,
    soc: int,
    charge: int,
    discharge: int,
    i: int,
    wh: int,
)
    requires
        device_reads(root, device),
        find(root, "device"@) == Some(Tree::Array(seq![Tree::Table(table)])),
        find(table, "kind"@) == Some(Tree::Text("virtual"@)),
        find(table, "id"@) == Some(Tree::Text(id)),
        find(table, "packs"@) == Some(Tree::Array(sizes)),
        find(table, "soc"@) == Some(Tree::Integer(soc)),
        find(table, "charge_efficiency"@) == Some(Tree::Integer(charge)),
        find(table, "discharge_efficiency"@) == Some(Tree::Integer(discharge)),
        0 <= i < sizes.len(),
        sizes[i] == Tree::Integer(wh),
        -1_000_000_000_000 <= wh <= 1_000_000_000_000,
        0 <= charge <= 100,
        0 <= discharge <= 100,
    ensures
        device matches DeviceConfig::Virtual {
            id: name,
            packs,
            soc: start,
            charge_efficiency,
            discharge_efficiency,
        } && name@ == id && packs@.len() == sizes.len() && packs@[i].parts == wh * 7_200_000
            && charge_efficiency@ == charge * 1000 && discharge_efficiency@ == discharge * 1000 && (
        soc <= 100 ==> start@ == soc) && (soc > 100 ==> start@ == 100),
        device.spec_identity() == id,
{
    reveal_strlit("zendure");
    reveal_strlit("virtual");
    assert("zendure"@[0] == 'z' && "virtual"@[0] == 'v');
}

/// A simulated device is polled every ten seconds, a real one as its file says.
pub proof fn a_device_is_polled_at_its_pace(device: DeviceConfig, out: Duration)
    requires
        call_ensures(DeviceConfig::poll_interval, (&device,), out),
    ensures
        device is Virtual ==> out@ == 10_000,
        device matches DeviceConfig::Zendure { poll_interval, .. } ==> out == poll_interval,
{
}

/// A file has exactly one device, which is a table.
pub proof fn a_file_has_one_device(root: Table, entries: Seq<Tree>, table: Table)
    ensures
        find(root, "device"@) is None ==> problem(root) == Some(
            "device is required (at least one [[device]] entry)"@,
        ),
        find(root, "device"@) == Some(Tree::Array(entries)) && entries.len() != 1 ==> problem(root)
            == Some("expected exactly one [[device]] entry, found "@ + decimal(entries.len())),
        find(root, "device"@) == Some(Tree::Array(entries)) && entries.len() == 1
            && !(entries[0] is Table) ==> problem(root) == Some(
            "[[device]] entries must be tables, found "@ + entries[0].kind(),
        ),
        find(root, "device"@) == Some(Tree::Table(table)) ==> problem(root) == Some(
            "device must be an array of tables ([[device]]), found "@ + "table"@,
        ),
{
}

/// A field of the device that is missing or of the wrong kind is named.
pub proof fn a_wrong_device_field_is_named(
    table: Table,
    key: Seq<char>,
    n: int,
    most: int,
    s: Seq<char>,
)
    ensures
        find(table, key) is None ==> {
            let e = "device."@ + key + " is required"@;
            &&& device_text(table, key) == Err::<Seq<char>, Seq<char>>(e)
            &&& device_count(table, key, most) == Err::<int, Seq<char>>(e)
            &&& device_milli(table, key) == Err::<int, Seq<char>>(e)
            &&& device_packs(table, key) == Err::<Seq<int>, Seq<char>>(e)
        },
        find(table, key) == Some(Tree::Integer(n)) ==> {
            &&& device_text(table, key) == Err::<Seq<char>, Seq<char>>(
                "device."@ + key + (" must be a string, found "@ + "integer"@),
            )
            &&& 0 <= n <= most ==> device_count(table, key, most) == Ok::<int, Seq<char>>(n)
            &&& !(0 <= n <= most) ==> device_count(table, key, most) == Err::<int, Seq<char>>(
                "device."@ + key + (" must be a non-negative integer, found "@ + signed(n)),
            )
            &&& device_packs(table, key) == Err::<Seq<int>, Seq<char>>(
                "device."@ + key + (" must be an array, found "@ + "integer"@),
            )
        },
        find(table, key) == Some(Tree::Text(s)) ==> {
            &&& device_text(table, key) == Ok::<Seq<char>, Seq<char>>(s)
            &&& device_count(table, key, most) == Err::<int, Seq<char>>(
                "device."@ + key + (" must be an integer, found "@ + "string"@),
            )
            &&& device_milli(table, key) == Err::<int, Seq<char>>(
                "device."@ + key + (" must be a number, found "@ + "string"@),
            )
        },
{
}

/// A pack that is no number is told of, and only then are packs refused.
pub proof fn a_wrong_pack_is_told_of(items: Seq<Tree>, n: int, k: int)
    requires
        0 <= k < n <= items.len(),
        finite_milli(items[k]) is None,
        forall|i: int| 0 <= i < k ==> finite_milli(#[trigger] items[i]) is Some,
    ensures
        packs_fault(items, n) == Some(" entries must be numbers, found "@ + items[k].kind()),
{
    packs_are_right(items, k);
    first_bad_pack(items, k + 1, n);
}

/// Packs that are numbers are right.
pub proof fn packs_are_right(items: Seq<Tree>, n: int)
    requires
        0 <= n <= items.len(),
        forall|i: int| 0 <= i < n ==> finite_milli(#[trigger] items[i]) is Some,
    ensures
        packs_fault(items, n) is None,
    decreases n,
{
    if n > 0 {
        packs_are_right(items, n - 1);
        assert(finite_milli(items[n - 1]) is Some);
    }
}

/// A device of either kind has its own fields, and no other.
pub proof fn a_device_has_its_own_fields(key: Seq<char>)
    ensures
        is_device_field("zendure"@, key) <==> seq![
            "kind"@,
            "ip"@,
            "sn"@,
            "poll_interval_secs"@,
        ].contains(key),
        is_device_field("virtual"@, key) <==> seq![
            "kind"@,
            "id"@,
            "packs"@,
            "soc"@,
            "charge_efficiency"@,
            "discharge_efficiency"@,
        ].contains(key),
{
    reveal_strlit("zendure");
    reveal_strlit("virtual");
    assert("zendure"@[0] == 'z' && "virtual"@[0] == 'v');
    let wired = seq!["kind"@, "ip"@, "sn"@, "poll_interval_secs"@];
    let made = seq![
        "kind"@,
        "id"@,
        "packs"@,
        "soc"@,
        "charge_efficiency"@,
        "discharge_efficiency"@,
    ];
    assert(wired[0] == "kind"@ && wired[1] == "ip"@ && wired[2] == "sn"@ && wired[3]
        == "poll_interval_secs"@);
    assert(made[0] == "kind"@ && made[1] == "id"@ && made[2] == "packs"@ && made[3] == "soc"@);
    assert(made[4] == "charge_efficiency"@ && made[5] == "discharge_efficiency"@);
}

/// The first field that a device does not have is named; one that it has is not.
pub proof fn a_stray_field_is_named(table: Table, kind: Seq<char>, from: int, i: int)
    requires
        0 <= from <= i <= table.len(),
        forall|k: int| from <= k < i ==> is_device_field(kind, (#[trigger] table[k]).0),
        i < table.len() ==> !is_device_field(kind, table[i].0),
    ensures
        i < table.len() ==> stray_field(table, kind, from) == Some(
            "device."@ + table[i].0 + " is not a recognised field"@,
        ),
        i == table.len() ==> stray_field(table, kind, from) is None,
    decreases i - from,
{
    if from < i {
        assert(is_device_field(kind, table[from].0));
        a_stray_field_is_named(table, kind, from + 1, i);
    }
}

/// A device that has every field right, and no other, does not stop the reader; one whose
/// kind is not known does.
pub proof fn a_right_device_does_not_stop_the_reader(root: Table, table: Table, kind: Seq<char>)
    requires
        find(root, "device"@) == Some(Tree::Array(seq![Tree::Table(table)])),
        find(table, "kind"@) == Some(Tree::Text(kind)),
    ensures
        kind == "zendure"@ ==> (device_problem(root) is None <==> device_text(table, "ip"@) is Ok
            && device_text(table, "sn"@) is Ok && device_count(
            table,
            "poll_interval_secs"@,
            0xffff_ffff_ffff_ffff,
        ) is Ok && stray_field(table, kind, 0) is None),
        kind == "virtual"@ ==> (device_problem(root) is None <==> device_text(table, "id"@) is Ok
            && device_packs(table, "packs"@) is Ok && device_count(
            table,
            "soc"@,
            0xffff_ffff,
        ) is Ok && device_milli(table, "charge_efficiency"@) is Ok && device_milli(
            table,
            "discharge_efficiency"@,
        ) is Ok && stray_field(table, kind, 0) is None),
        kind != "zendure"@ && kind != "virtual"@ ==> device_problem(root) == Some(
            "device.kind must be \"zendure\" or \"virtual\", found "@ + quoted(kind),
        ),
{
    reveal_strlit("zendure");
    reveal_strlit("virtual");
    assert("zendure"@[0] == 'z' && "virtual"@[0] == 'v');
}

/// What a table says under a key in words.
pub open spec fn words_at(table: Table, key: Seq<char>) -> Option<Seq<char>> {
    match find(table, key) {
        Some(Tree::Text(s)) => Some(s),
        Some(Tree::Datetime(s)) => Some(s),
        _ => None,
    }
}

/// The broker is the one that the file names, with a port and a client name of its own
/// where it gives none. No section, no broker.
pub proof fn a_file_gives_the_broker(root: Table, table: Table, mqtt: Option<MqttConfig>)
    requires
        mqtt_reads(root, mqtt),
    ensures
        find(root, "mqtt"@) is None ==> mqtt is None,
        find(root, "mqtt"@) == Some(Tree::Table(table)) ==> mqtt is Some,
        find(root, "mqtt"@) == Some(Tree::Table(table)) ==> (mqtt matches Some(m) ==> {
            &&& words_at(table, "host"@) == Some(m.host@)
            &&& m.port == whole_or(table, "port"@, 0xffff, 1883)
            &&& words_at(table, "username"@) == seen_option(m.username)
            &&& words_at(table, "password"@) == seen_option(m.password)
            &&& words_at(table, "client_id"@) matches Some(name) ==> m.client_id@ == name
            &&& words_at(table, "client_id"@) is None ==> m.client_id@ == "zendure-controller"@
        }),
{
}

/// The meter is read on the topic that the file names, and the sun on the phase that it
/// names, or else on the first.
pub proof fn a_file_gives_the_meter(
    root: Table,
    table: Table,
    shelly: Option<ShellyConfig>,
    phase: Seq<char>,
)
    requires
        shelly_reads(root, shelly),
    ensures
        find(root, "shelly"@) is None ==> shelly is None,
        find(root, "shelly"@) == Some(Tree::Table(table)) ==> shelly is Some,
        find(root, "shelly"@) == Some(Tree::Table(table)) ==> (shelly matches Some(s) ==> {
            &&& words_at(table, "topic"@) == Some(s.topic@)
            &&& find(table, "solar_phase"@) is None ==> s.solar_phase == SolarPhase::A
            &&& find(table, "solar_phase"@) == Some(Tree::Text("A"@)) ==> s.solar_phase
                == SolarPhase::A
            &&& find(table, "solar_phase"@) == Some(Tree::Text("B"@)) ==> s.solar_phase
                == SolarPhase::B
            &&& find(table, "solar_phase"@) == Some(Tree::Text("C"@)) ==> s.solar_phase
                == SolarPhase::C
        }),
        read_phase(Tree::Text("a"@)) == Ok::<SolarPhase, Seq<char>>(SolarPhase::A),
        read_phase(Tree::Text("b"@)) == Ok::<SolarPhase, Seq<char>>(SolarPhase::B),
        read_phase(Tree::Text("c"@)) == Ok::<SolarPhase, Seq<char>>(SolarPhase::C),
        phase.len() != 1 ==> read_phase(Tree::Text(phase)) is Err,
{
    reveal_strlit("A");
    reveal_strlit("B");
    reveal_strlit("C");
    reveal_strlit("a");
    reveal_strlit("b");
    reveal_strlit("c");
    assert("A"@[0] == 'A' && "B"@[0] == 'B' && "C"@[0] == 'C');
    assert("a"@[0] == 'a' && "b"@[0] == 'b' && "c"@[0] == 'c');
}

/// A made-up meter has the load and the sun that the file gives, and any other file means
/// the real one.
pub proof fn a_file_makes_up_a_meter(
    root: Table,
    table: Table,
    meter: MeterConfig,
    load: int,
    peak: int,
)
    requires
        meter_reads(root, meter),
    ensures
        find(root, "meter"@) is None ==> meter == MeterConfig::Shelly,
        find(root, "meter"@) == Some(Tree::Table(table)) && find(table, "kind"@) == Some(
            Tree::Text("shelly"@),
        ) ==> meter == MeterConfig::Shelly,
        find(root, "meter"@) == Some(Tree::Table(table)) && find(table, "kind"@) == Some(
            Tree::Text("synthetic"@),
        ) && find(table, "base_load"@) == Some(Tree::Integer(load)) && find(table, "solar_peak"@)
            == Some(Tree::Integer(peak)) ==> (meter matches MeterConfig::Synthetic {
            base_load,
            solar_peak,
        } && base_load.w == load && solar_peak.w == peak),
{
    reveal_strlit("shelly");
    reveal_strlit("synthetic");
    assert("shelly"@.len() == 6 && "synthetic"@.len() == 9);
}

/// The dashboard is served where the file says, or else to the machine itself, on port
/// 8080. No section, no dashboard.
pub proof fn a_file_gives_the_dashboard(root: Table, table: Table, web: Option<WebConfig>)
    requires
        web_reads(root, web),
    ensures
        find(root, "web"@) is None ==> web is None,
        find(root, "web"@) == Some(Tree::Table(table)) ==> web is Some,
        find(root, "web"@) == Some(Tree::Table(table)) ==> (web matches Some(w) ==> {
            &&& w.port == whole_or(table, "port"@, 0xffff, 8080)
            &&& find(table, "bind_address"@) is None ==> w.bind_address == IpAddress::V4(
                0x7f00_0001,
            )
            &&& find(table, "bind_address"@) matches Some(tree) ==> read_address(tree) matches Ok(
                address,
            ) ==> w.bind_address == address
        }),
{
}

/// The rest of a file: each setting under its own name, and its own default where the file
/// has none.
pub proof fn a_file_gives_the_rest(
    root: Table,
    config: Config,
    home: Table,
    clock: Table,
    journal: Table,
    rte: Table,
    logging: Table,
)
    requires
        config_reads(root, config),
    ensures
        find(root, "homeassistant"@) is None ==> config.ha_publish_prefix@ == "zendure"@,
        find(root, "homeassistant"@) == Some(Tree::Table(home)) ==> (words_at(
            home,
            "publish_prefix"@,
        ) matches Some(s) ==> config.ha_publish_prefix@ == s),
        find(root, "clock"@) is None ==> config.timezone@ == "UTC"@,
        find(root, "clock"@) == Some(Tree::Table(clock)) ==> (words_at(
            clock,
            "timezone"@,
        ) matches Some(s) ==> crate::setting::is_timezone(s) ==> config.timezone@ == s),
        find(root, "clock"@) == Some(Tree::Table(clock)) ==> (words_at(
            clock,
            "timezone"@,
        ) matches Some(s) ==> !crate::setting::is_timezone(s) ==> config.timezone@ == "UTC"@),
        find(root, "journal"@) is None ==> config.journal_path@ == "/var/lib/zendure/journal.db"@
            && config.journal_retention_days@ == 90,
        find(root, "journal"@) == Some(Tree::Table(journal)) ==> (words_at(
            journal,
            "path"@,
        ) matches Some(s) ==> config.journal_path@ == s),
        find(root, "journal"@) == Some(Tree::Table(journal)) ==> (find(
            journal,
            "retention_days"@,
        ) matches Some(Tree::Integer(days)) ==> config.journal_retention_days@ == if days >= 1 {
            days
        } else {
            90
        }),
        find(root, "rte"@) is None ==> config.rte_state_path@
            == "/var/lib/zendure/rte_state.json"@,
        find(root, "rte"@) == Some(Tree::Table(rte)) ==> (words_at(rte, "state_path"@) matches Some(
            s,
        ) ==> config.rte_state_path@ == s),
        find(root, "logging"@) is None ==> config.log_filter@ == "zendure=info"@,
        find(root, "logging"@) == Some(Tree::Table(logging)) ==> (words_at(
            logging,
            "filter"@,
        ) matches Some(s) ==> config.log_filter@ == s),
{
}

/// The knobs of a configuration are those of its session, each as it is, and spans in
/// whole seconds.
pub proof fn a_session_has_every_knob(root: Table, config: Config)
    requires
        config_reads(root, config),
    ensures
        ({
            let t = config.spec_session();
            &&& tuning_reads(root, t)
            &&& t.charge_margin == config.charge_margin
            &&& t.discharge_margin == config.discharge_margin
            &&& t.charge_start_threshold == config.charge_start_threshold
            &&& t.discharge_start_threshold == config.discharge_start_threshold
            &&& t.min_mode_duration_secs * 1000 == config.min_mode_duration@
            &&& t.min_decision_interval_secs * 1000 == config.min_decision_interval@
            &&& t.idle_timeout_secs * 1000 == config.idle_timeout@
            &&& t.min_idle_before_discharge_secs * 1000 == config.min_idle_before_discharge@
            &&& t.cycle_warn_threshold == config.cycle_warn_threshold
            &&& t.min_soc == config.min_soc
            &&& t.max_soc == config.max_soc
            &&& t.balance_weekday == config.balance_weekday
            &&& t.solar_discharge_block_threshold == config.solar_discharge_block_threshold
            &&& t.mqtt_timeout_secs * 1000 == config.mqtt_timeout@
        }),
{
}

/// The real meter needs a broker and a topic, and the made-up one a simulated battery.
pub proof fn a_meter_needs_its_like(root: Table, table: Table, kind: Seq<char>)
    requires
        find(root, "device"@) == Some(Tree::Array(seq![Tree::Table(table)])),
        find(table, "kind"@) == Some(Tree::Text(kind)),
    ensures
        coherence_problem(root) is None <==> if is_synthetic(root) {
            kind == "virtual"@
        } else {
            has_section(root, "mqtt"@) && has_section(root, "shelly"@)
        },
{
}

/// A file is read exactly when nothing in it stops the reader, and what stops it first is
/// told.
pub proof fn the_first_problem_stops_the_reader(root: Table)
    ensures
        problem(root) is None <==> device_problem(root) is None && mqtt_problem(root) is None
            && shelly_problem(root) is None && meter_problem(root) is None && coherence_problem(
            root,
        ) is None && web_problem(root) is None && section_problem(root, "homeassistant"@) is None
            && section_problem(root, "clock"@) is None && section_problem(
            root,
            "journal"@,
        ) is None && section_problem(root, "rte"@) is None && section_problem(
            root,
            "logging"@,
        ) is None && section_problem(root, "tuning"@) is None,
        device_problem(root) matches Some(e) ==> problem(root) == Some(e),
        device_problem(root) is None ==> (mqtt_problem(root) matches Some(e) ==> problem(root)
            == Some(e)),
        device_problem(root) is None && mqtt_problem(root) is None ==> (shelly_problem(
            root,
        ) matches Some(e) ==> problem(root) == Some(e)),
        device_problem(root) is None && mqtt_problem(root) is None && shelly_problem(root) is None
            ==> (meter_problem(root) matches Some(e) ==> problem(root) == Some(e)),
        device_problem(root) is None && mqtt_problem(root) is None && shelly_problem(root) is None
            && meter_problem(root) is None ==> (coherence_problem(root) matches Some(e) ==> problem(
            root,
        ) == Some(e)),
        device_problem(root) is None && mqtt_problem(root) is None && shelly_problem(root) is None
            && meter_problem(root) is None && coherence_problem(root) is None ==> (web_problem(
            root,
        ) matches Some(e) ==> problem(root) == Some(e)),
{
}

/// A broker needs a host, and each of its settings has to fit.
pub proof fn a_broker_needs_a_host(root: Table, table: Table, n: int)
    requires
        find(root, "mqtt"@) == Some(Tree::Table(table)),
    ensures
        find(table, "host"@) is None ==> mqtt_problem(root) == Some(
            "mqtt.host"@ + " is required"@,
        ),
        words_at(table, "host"@) is Some && find(table, "port"@) == Some(Tree::Integer(n)) && !(0
            <= n <= 0xffff) ==> mqtt_problem(root) == Some(
            "mqtt.port"@ + ": "@ + crate::setting::misfit("u16"@, Tree::Integer(n)) + "\n"@,
        ),
        words_at(table, "host"@) is Some && find(table, "port"@) is None && find(
            table,
            "username"@,
        ) == Some(Tree::Integer(n)) ==> mqtt_problem(root) == Some(
            "mqtt.username"@ + ": "@ + crate::setting::mismatch("a string"@, Tree::Integer(n))
                + "\n"@,
        ),
        words_at(table, "host"@) is Some && find(table, "port"@) is None && find(
            table,
            "username"@,
        ) is None && find(table, "password"@) == Some(Tree::Integer(n)) ==> mqtt_problem(root)
            == Some(
            "mqtt.password"@ + ": "@ + crate::setting::mismatch("a string"@, Tree::Integer(n))
                + "\n"@,
        ),
        words_at(table, "host"@) is Some && find(table, "port"@) is None && find(
            table,
            "username"@,
        ) is None && find(table, "password"@) is None && find(table, "client_id"@) is None
            ==> mqtt_problem(root) is None,
{
}

/// The other sections stop the reader for what they cannot do without, or cannot read.
pub proof fn a_section_needs_what_it_needs(root: Table, table: Table, n: int, kind: Seq<char>)
    ensures
        find(root, "shelly"@) == Some(Tree::Table(table)) && find(table, "topic"@) is None
            ==> shelly_problem(root) == Some("shelly.topic"@ + " is required"@),
        find(root, "shelly"@) == Some(Tree::Table(table)) && words_at(table, "topic"@) is Some
            ==> shelly_problem(root) is None,
        find(root, "meter"@) == Some(Tree::Table(table)) && find(table, "kind"@) is None
            ==> meter_problem(root) == Some("meter.kind"@ + " is required"@),
        find(root, "meter"@) == Some(Tree::Table(table)) && find(table, "kind"@) == Some(
            Tree::Text(kind),
        ) && kind != "shelly"@ && kind != "synthetic"@ ==> meter_problem(root) == Some(
            "meter.kind must be \"shelly\" or \"synthetic\", found "@ + quoted(kind),
        ),
        find(root, "meter"@) == Some(Tree::Table(table)) && find(table, "kind"@) == Some(
            Tree::Text("synthetic"@),
        ) && find(table, "base_load"@) is None ==> meter_problem(root) == Some(
            "meter.base_load"@ + " is required"@,
        ),
        find(root, "web"@) == Some(Tree::Table(table)) && find(table, "bind_address"@) is None
            && find(table, "port"@) == Some(Tree::Integer(n)) && !(0 <= n <= 0xffff)
            ==> web_problem(root) == Some(
            "web.port"@ + ": "@ + crate::setting::misfit("u16"@, Tree::Integer(n)) + "\n"@,
        ),
        find(root, "web"@) == Some(Tree::Table(table)) && find(table, "bind_address"@) is None
            && find(table, "port"@) is None ==> web_problem(root) is None,
{
}

/// The knobs are known by these names, and by no others.
pub proof fn the_knobs_are_these(key: Seq<char>)
    ensures
        is_tuning_key(key) <==> seq![
            "charge_margin"@,
            "discharge_margin"@,
            "charge_start_threshold"@,
            "discharge_start_threshold"@,
            "min_mode_duration_secs"@,
            "min_decision_interval_secs"@,
            "idle_timeout_secs"@,
            "min_idle_before_discharge_secs"@,
            "cycle_warn_threshold"@,
            "min_soc"@,
            "max_soc"@,
            "balance_weekday"@,
            "solar_discharge_block_threshold"@,
            "mqtt_timeout_secs"@,
        ].contains(key),
{
    let all = seq![
        "charge_margin"@,
        "discharge_margin"@,
        "charge_start_threshold"@,
        "discharge_start_threshold"@,
        "min_mode_duration_secs"@,
        "min_decision_interval_secs"@,
        "idle_timeout_secs"@,
        "min_idle_before_discharge_secs"@,
        "cycle_warn_threshold"@,
        "min_soc"@,
        "max_soc"@,
        "balance_weekday"@,
        "solar_discharge_block_threshold"@,
        "mqtt_timeout_secs"@,
    ];
    assert(all[0] == "charge_margin"@);
    assert(all[1] == "discharge_margin"@);
    assert(all[2] == "charge_start_threshold"@);
    assert(all[3] == "discharge_start_threshold"@);
    assert(all[4] == "min_mode_duration_secs"@);
    assert(all[5] == "min_decision_interval_secs"@);
    assert(all[6] == "idle_timeout_secs"@);
    assert(all[7] == "min_idle_before_discharge_secs"@);
    assert(all[8] == "cycle_warn_threshold"@);
    assert(all[9] == "min_soc"@);
    assert(all[10] == "max_soc"@);
    assert(all[11] == "balance_weekday"@);
    assert(all[12] == "solar_discharge_block_threshold"@);
    assert(all[13] == "mqtt_timeout_secs"@);
}

/// A key that nothing is read from is named with its section, in its place; one that is
/// read is not.
pub proof fn a_stray_key_is_named(section: Seq<char>, table: Table, synthetic: bool, n: int)
    requires
        0 <= n < table.len(),
    ensures
        is_known_key(section, table[n].0, synthetic) ==> strays_in(
            section,
            table,
            synthetic,
            n + 1,
        ) == strays_in(section, table, synthetic, n),
        !is_known_key(section, table[n].0, synthetic) ==> strays_in(
            section,
            table,
            synthetic,
            n + 1,
        ) == strays_in(section, table, synthetic, n).push(
            "unknown key `"@ + (section + "."@ + table[n].0) + "`; ignored"@,
        ),
        strays_in(section, table, synthetic, 0).len() == 0,
{
}

/// A section that is not known is named once, and so is a key outside every section. What
/// a known section does not know is named key by key.
pub proof fn a_stray_section_is_named(root: Table, synthetic: bool, n: int, table: Table)
    requires
        0 <= n < root.len(),
    ensures
        root[n].0 == "device"@ ==> strays(root, synthetic, n + 1) == strays(root, synthetic, n),
        root[n].0 != "device"@ && !is_section(root[n].0) ==> strays(root, synthetic, n + 1)
            == strays(root, synthetic, n).push("unknown key `"@ + root[n].0 + "`; ignored"@),
        root[n].0 != "device"@ && !(root[n].1 is Table) ==> strays(root, synthetic, n + 1)
            == strays(root, synthetic, n).push("unknown key `"@ + root[n].0 + "`; ignored"@),
        root[n].0 != "device"@ && is_section(root[n].0) && root[n].1 == Tree::Table(table)
            ==> strays(root, synthetic, n + 1) == strays(root, synthetic, n) + strays_in(
            root[n].0,
            table,
            synthetic,
            table.len() as int,
        ),
        strays(root, synthetic, 0).len() == 0,
{
}

/// What is said of a file: first of the settings outside the knobs, each by its name and
/// with its default, then of the knobs, and last of what nothing is read from.
pub proof fn a_file_is_told_of(root: Table)
    ensures
        is_warned_of(
            warnings_of(root),
            setting(root, "shelly"@, "solar_phase"@) is Some,
            fault(phases(root, "shelly"@, "solar_phase"@)),
            "shelly.solar_phase"@,
            "A"@,
        ),
        is_warned_of(
            warnings_of(root),
            setting(root, "homeassistant"@, "publish_prefix"@) is Some,
            fault(texts(root, "homeassistant"@, "publish_prefix"@)),
            "homeassistant.publish_prefix"@,
            "\"zendure\""@,
        ),
        is_warned_of(
            warnings_of(root),
            setting(root, "clock"@, "timezone"@) is Some,
            fault(timezones(root, "clock"@, "timezone"@)),
            "clock.timezone"@,
            "TimezoneName(UTC)"@,
        ),
        is_warned_of(
            warnings_of(root),
            setting(root, "journal"@, "path"@) is Some,
            fault(paths(root, "journal"@, "path"@)),
            "journal.path"@,
            "\"/var/lib/zendure/journal.db\""@,
        ),
        is_warned_of(
            warnings_of(root),
            setting(root, "journal"@, "retention_days"@) is Some,
            fault(all_days(root, "journal"@, "retention_days"@)),
            "journal.retention_days"@,
            "RetentionDays(90)"@,
        ),
        is_warned_of(
            warnings_of(root),
            setting(root, "rte"@, "state_path"@) is Some,
            fault(paths(root, "rte"@, "state_path"@)),
            "rte.state_path"@,
            "\"/var/lib/zendure/rte_state.json\""@,
        ),
        is_warned_of(
            warnings_of(root),
            setting(root, "logging"@, "filter"@) is Some,
            fault(texts(root, "logging"@, "filter"@)),
            "logging.filter"@,
            "\"zendure=info\""@,
        ),
        forall|x: Seq<char>| #[trigger] tuning_warnings(root).contains(x) ==> warnings_of(
            root,
        ).contains(x),
        forall|x: Seq<char>| #[trigger]
            strays(root, is_synthetic(root), root.len() as int).contains(x) ==> warnings_of(
                root,
            ).contains(x),
{
    let f0 = fault(phases(root, "shelly"@, "solar_phase"@));
    let f1 = fault(texts(root, "homeassistant"@, "publish_prefix"@));
    let f2 = fault(timezones(root, "clock"@, "timezone"@));
    let f3 = fault(paths(root, "journal"@, "path"@));
    let f4 = fault(all_days(root, "journal"@, "retention_days"@));
    let f5 = fault(paths(root, "rte"@, "state_path"@));
    let f6 = fault(texts(root, "logging"@, "filter"@));
    let w0 = warned("shelly.solar_phase"@, f0, "A"@);
    let w1 = warned("homeassistant.publish_prefix"@, f1, "\"zendure\""@);
    let w2 = warned("clock.timezone"@, f2, "TimezoneName(UTC)"@);
    let w3 = warned("journal.path"@, f3, "\"/var/lib/zendure/journal.db\""@);
    let w4 = warned("journal.retention_days"@, f4, "RetentionDays(90)"@);
    let w5 = warned("rte.state_path"@, f5, "\"/var/lib/zendure/rte_state.json\""@);
    let w6 = warned("logging.filter"@, f6, "\"zendure=info\""@);
    let w7 = tuning_warnings(root);
    let w8 = strays(root, is_synthetic(root), root.len() as int);
    let p1 = w0 + w1;
    let p2 = p1 + w2;
    let p3 = p2 + w3;
    let p4 = p3 + w4;
    let p5 = p4 + w5;
    let p6 = p5 + w6;
    let p7 = p6 + w7;
    let p8 = p7 + w8;
    assert(warnings_of(root) == p8);
    a_fault_is_told("shelly.solar_phase"@, f0, "A"@);
    a_fault_is_told("homeassistant.publish_prefix"@, f1, "\"zendure\""@);
    a_fault_is_told("clock.timezone"@, f2, "TimezoneName(UTC)"@);
    a_fault_is_told("journal.path"@, f3, "\"/var/lib/zendure/journal.db\""@);
    a_fault_is_told("journal.retention_days"@, f4, "RetentionDays(90)"@);
    a_fault_is_told("rte.state_path"@, f5, "\"/var/lib/zendure/rte_state.json\""@);
    a_fault_is_told("logging.filter"@, f6, "\"zendure=info\""@);
    both_stay(w0, w1);
    both_stay(p1, w2);
    both_stay(p2, w3);
    both_stay(p3, w4);
    both_stay(p4, w5);
    both_stay(p5, w6);
    both_stay(p6, w7);
    both_stay(p7, w8);
}

/// A label stands in a text, with a value right behind it.
#[verifier::opaque]
pub open spec fn shows(whole: Seq<char>, label: Seq<char>, value: Seq<char>) -> bool {
    exists|at: int|
        0 <= at && at + label.len() + value.len() <= whole.len() && #[trigger] whole.subrange(
            at,
            at + label.len() + value.len(),
        ) == label + value
}

/// What is put behind a text stands in the whole, and what stood in it still does.
proof fn told_and_kept(front: Seq<char>, label: Seq<char>, value: Seq<char>)
    ensures
        shows(front + label + value, label, value),
        forall|l: Seq<char>, v: Seq<char>| #[trigger]
            shows(front, l, v) ==> shows(front + label + value, l, v),
{
    reveal(shows);
    let whole = front + label + value;
    let at = front.len() as int;
    assert(whole.subrange(at, at + label.len() + value.len()) =~= label + value);
    assert forall|l: Seq<char>, v: Seq<char>| #[trigger] shows(front, l, v) implies shows(
        whole,
        l,
        v,
    ) by {
        let i = choose|i: int|
            0 <= i && i + l.len() + v.len() <= front.len() && #[trigger] front.subrange(
                i,
                i + l.len() + v.len(),
            ) == l + v;
        assert(whole.subrange(i, i + l.len() + v.len()) =~= front.subrange(
            i,
            i + l.len() + v.len(),
        ));
    }
}

/// What an operator is shown has every setting under its own name.
pub proof fn each_setting_is_shown_under_its_name(c: Config)
    ensures
        shows(c.shown(), "Config { mqtt: "@, shown_mqtt(c.mqtt)),
        shows(c.shown(), ", device: "@, c.device.shown()),
        shows(c.shown(), ", shelly: "@, shown_shelly(c.shelly)),
        shows(c.shown(), ", meter: "@, shown_meter(c.meter)),
        shows(c.shown(), ", web: "@, shown_web(c.web)),
        shows(c.shown(), ", ha_publish_prefix: "@, quoted(c.ha_publish_prefix@)),
        shows(c.shown(), ", charge_margin: PowerMargin("@, decimal(c.charge_margin.watts as nat)),
        shows(c.shown(), "), discharge_margin: PowerMargin("@, decimal(c.discharge_margin.watts as nat)),
        shows(c.shown(), "), charge_start_threshold: GridPower("@, shown_threshold(c.charge_start_threshold.mw)),
        shows(c.shown(), "), discharge_start_threshold: GridPower("@, shown_threshold(c.discharge_start_threshold.mw)),
        shows(c.shown(), "), min_mode_duration: "@, shown_secs(c.min_mode_duration)),
        shows(c.shown(), ", min_decision_interval: "@, shown_secs(c.min_decision_interval)),
        shows(c.shown(), ", idle_timeout: "@, shown_secs(c.idle_timeout)),
        shows(c.shown(), ", cycle_warn_threshold: "@, decimal(c.cycle_warn_threshold as nat)),
        shows(c.shown(), ", min_soc: Soc("@, decimal(c.min_soc@ as nat)),
        shows(c.shown(), "), max_soc: Soc("@, decimal(c.max_soc@ as nat)),
        shows(c.shown(), "), balance_weekday: "@, shown_day(c.balance_weekday)),
        shows(c.shown(), ", solar_discharge_block_threshold: SolarPower("@, shown_threshold(c.solar_discharge_block_threshold.mw)),
        shows(c.shown(), "), min_idle_before_discharge: "@, shown_secs(c.min_idle_before_discharge)),
        shows(c.shown(), ", timezone: "@, c.timezone@),
        shows(c.shown(), ", mqtt_timeout: "@, shown_secs(c.mqtt_timeout)),
        shows(c.shown(), ", journal_path: "@, quoted(c.journal_path@)),
        shows(c.shown(), ", journal_retention_days: RetentionDays("@, decimal(c.journal_retention_days@ as nat)),
        shows(c.shown(), "), rte_state_path: "@, quoted(c.rte_state_path@)),
        shows(c.shown(), ", log_filter: "@, quoted(c.log_filter@)),
{
    let p0 = "Config { mqtt: "@ + shown_mqtt(c.mqtt);
    told_and_kept(Seq::empty(), "Config { mqtt: "@, shown_mqtt(c.mqtt));
    assert(Seq::empty() + "Config { mqtt: "@ + shown_mqtt(c.mqtt) =~= p0);
    let p1 = p0 + ", device: "@ + c.device.shown();
    told_and_kept(p0, ", device: "@, c.device.shown());
    let p2 = p1 + ", shelly: "@ + shown_shelly(c.shelly);
    told_and_kept(p1, ", shelly: "@, shown_shelly(c.shelly));
    let p3 = p2 + ", meter: "@ + shown_meter(c.meter);
    told_and_kept(p2, ", meter: "@, shown_meter(c.meter));
    let p4 = p3 + ", web: "@ + shown_web(c.web);
    told_and_kept(p3, ", web: "@, shown_web(c.web));
    let p5 = p4 + ", ha_publish_prefix: "@ + quoted(c.ha_publish_prefix@);
    told_and_kept(p4, ", ha_publish_prefix: "@, quoted(c.ha_publish_prefix@));
    let p6 = p5 + ", charge_margin: PowerMargin("@ + decimal(c.charge_margin.watts as nat);
    told_and_kept(p5, ", charge_margin: PowerMargin("@, decimal(c.charge_margin.watts as nat));
    let p7 = p6 + "), discharge_margin: PowerMargin("@ + decimal(c.discharge_margin.watts as nat);
    told_and_kept(p6, "), discharge_margin: PowerMargin("@, decimal(c.discharge_margin.watts as nat));
    let p8 = p7 + "), charge_start_threshold: GridPower("@ + shown_threshold(c.charge_start_threshold.mw);
    told_and_kept(p7, "), charge_start_threshold: GridPower("@, shown_threshold(c.charge_start_threshold.mw));
    let p9 = p8 + "), discharge_start_threshold: GridPower("@ + shown_threshold(c.discharge_start_threshold.mw);
    told_and_kept(p8, "), discharge_start_threshold: GridPower("@, shown_threshold(c.discharge_start_threshold.mw));
    let p10 = p9 + "), min_mode_duration: "@ + shown_secs(c.min_mode_duration);
    told_and_kept(p9, "), min_mode_duration: "@, shown_secs(c.min_mode_duration));
    let p11 = p10 + ", min_decision_interval: "@ + shown_secs(c.min_decision_interval);
    told_and_kept(p10, ", min_decision_interval: "@, shown_secs(c.min_decision_interval));
    let p12 = p11 + ", idle_timeout: "@ + shown_secs(c.idle_timeout);
    told_and_kept(p11, ", idle_timeout: "@, shown_secs(c.idle_timeout));
    let p13 = p12 + ", cycle_warn_threshold: "@ + decimal(c.cycle_warn_threshold as nat);
    told_and_kept(p12, ", cycle_warn_threshold: "@, decimal(c.cycle_warn_threshold as nat));
    let p14 = p13 + ", min_soc: Soc("@ + decimal(c.min_soc@ as nat);
    told_and_kept(p13, ", min_soc: Soc("@, decimal(c.min_soc@ as nat));
    let p15 = p14 + "), max_soc: Soc("@ + decimal(c.max_soc@ as nat);
    told_and_kept(p14, "), max_soc: Soc("@, decimal(c.max_soc@ as nat));
    let p16 = p15 + "), balance_weekday: "@ + shown_day(c.balance_weekday);
    told_and_kept(p15, "), balance_weekday: "@, shown_day(c.balance_weekday));
    let p17 = p16 + ", solar_discharge_block_threshold: SolarPower("@ + shown_threshold(c.solar_discharge_block_threshold.mw);
    told_and_kept(p16, ", solar_discharge_block_threshold: SolarPower("@, shown_threshold(c.solar_discharge_block_threshold.mw));
    let p18 = p17 + "), min_idle_before_discharge: "@ + shown_secs(c.min_idle_before_discharge);
    told_and_kept(p17, "), min_idle_before_discharge: "@, shown_secs(c.min_idle_before_discharge));
    let p19 = p18 + ", timezone: "@ + c.timezone@;
    told_and_kept(p18, ", timezone: "@, c.timezone@);
    let p20 = p19 + ", mqtt_timeout: "@ + shown_secs(c.mqtt_timeout);
    told_and_kept(p19, ", mqtt_timeout: "@, shown_secs(c.mqtt_timeout));
    let p21 = p20 + ", journal_path: "@ + quoted(c.journal_path@);
    told_and_kept(p20, ", journal_path: "@, quoted(c.journal_path@));
    let p22 = p21 + ", journal_retention_days: RetentionDays("@ + decimal(c.journal_retention_days@ as nat);
    told_and_kept(p21, ", journal_retention_days: RetentionDays("@, decimal(c.journal_retention_days@ as nat));
    let p23 = p22 + "), rte_state_path: "@ + quoted(c.rte_state_path@);
    told_and_kept(p22, "), rte_state_path: "@, quoted(c.rte_state_path@));
    let p24 = p23 + ", log_filter: "@ + quoted(c.log_filter@);
    told_and_kept(p23, ", log_filter: "@, quoted(c.log_filter@));
    told_and_kept(p24, " }"@, Seq::empty());
    assert(p24 + " }"@ + Seq::empty() =~= p24 + " }"@);
    assert(c.shown() == p24 + " }"@);
}

/// The broker is shown with its settings under their names; of the password, only whether
/// there is one.
pub proof fn each_setting_of_the_broker_is_shown(m: MqttConfig)
    ensures
        shows(m.shown(), "MqttConfig { host: "@, quoted(m.host@)),
        shows(m.shown(), ", port: "@, decimal(m.port as nat)),
        shows(m.shown(), ", username: "@, shown_option(m.username)),
        m.password is Some ==> shows(m.shown(), ", password: "@, "Some(\"<redacted>\")"@),
        m.password is None ==> shows(m.shown(), ", password: "@, "None"@),
        shows(m.shown(), ", client_id: "@, quoted(m.client_id@)),
{
    let secret = if m.password is Some {
        "Some(\"<redacted>\")"@
    } else {
        "None"@
    };
    let p0 = "MqttConfig { host: "@ + quoted(m.host@);
    told_and_kept(Seq::empty(), "MqttConfig { host: "@, quoted(m.host@));
    assert(Seq::empty() + "MqttConfig { host: "@ + quoted(m.host@) =~= p0);
    let p1 = p0 + ", port: "@ + decimal(m.port as nat);
    told_and_kept(p0, ", port: "@, decimal(m.port as nat));
    let p2 = p1 + ", username: "@ + shown_option(m.username);
    told_and_kept(p1, ", username: "@, shown_option(m.username));
    let p3 = p2 + ", password: "@ + secret;
    told_and_kept(p2, ", password: "@, secret);
    let p4 = p3 + ", client_id: "@ + quoted(m.client_id@);
    told_and_kept(p3, ", client_id: "@, quoted(m.client_id@));
    told_and_kept(p4, " }"@, Seq::empty());
    assert(p4 + " }"@ + Seq::empty() =~= p4 + " }"@);
    assert(m.shown() == p4 + " }"@);
}

/// A device is shown with its settings under their names.
pub proof fn each_setting_of_the_device_is_shown(device: DeviceConfig)
    ensures
        device matches DeviceConfig::Zendure { ip, sn, poll_interval } ==> {
            &&& shows(device.shown(), "Zendure { ip: "@, quoted(ip@))
            &&& shows(device.shown(), ", sn: "@, quoted(sn@))
            &&& shows(device.shown(), ", poll_interval: "@, shown_secs(poll_interval))
        },
        device matches DeviceConfig::Virtual {
            id,
            packs,
            soc,
            charge_efficiency,
            discharge_efficiency,
        } ==> {
            &&& shows(device.shown(), "Virtual { id: "@, quoted(id@))
            &&& shows(device.shown(), ", packs: ["@, joined(shown_packs(packs@), ", "@))
            &&& shows(device.shown(), "], soc: Soc("@, decimal(soc@ as nat))
            &&& shows(
                device.shown(),
                "), charge_efficiency: Efficiency("@,
                in_full(charge_efficiency@),
            )
            &&& shows(
                device.shown(),
                "), discharge_efficiency: Efficiency("@,
                in_full(discharge_efficiency@),
            )
        },
{
    match device {
        DeviceConfig::Zendure { ip, sn, poll_interval } => {
            let p0 = "Zendure { ip: "@ + quoted(ip@);
            told_and_kept(Seq::empty(), "Zendure { ip: "@, quoted(ip@));
            assert(Seq::empty() + "Zendure { ip: "@ + quoted(ip@) =~= p0);
            let p1 = p0 + ", sn: "@ + quoted(sn@);
            told_and_kept(p0, ", sn: "@, quoted(sn@));
            let p2 = p1 + ", poll_interval: "@ + shown_secs(poll_interval);
            told_and_kept(p1, ", poll_interval: "@, shown_secs(poll_interval));
            told_and_kept(p2, " }"@, Seq::empty());
            assert(p2 + " }"@ + Seq::empty() =~= p2 + " }"@);
            assert(device.shown() == p2 + " }"@);
        },
        DeviceConfig::Virtual { id, packs, soc, charge_efficiency, discharge_efficiency } => {
            let list = joined(shown_packs(packs@), ", "@);
            let p0 = "Virtual { id: "@ + quoted(id@);
            told_and_kept(Seq::empty(), "Virtual { id: "@, quoted(id@));
            assert(Seq::empty() + "Virtual { id: "@ + quoted(id@) =~= p0);
            let p1 = p0 + ", packs: ["@ + list;
            told_and_kept(p0, ", packs: ["@, list);
            let p2 = p1 + "], soc: Soc("@ + decimal(soc@ as nat);
            told_and_kept(p1, "], soc: Soc("@, decimal(soc@ as nat));
            let p3 = p2 + "), charge_efficiency: Efficiency("@ + in_full(charge_efficiency@);
            told_and_kept(p2, "), charge_efficiency: Efficiency("@, in_full(charge_efficiency@));
            let p4 = p3 + "), discharge_efficiency: Efficiency("@ + in_full(
                discharge_efficiency@,
            );
            told_and_kept(
                p3,
                "), discharge_efficiency: Efficiency("@,
                in_full(discharge_efficiency@),
            );
            told_and_kept(p4, ") }"@, Seq::empty());
            assert(p4 + ") }"@ + Seq::empty() =~= p4 + ") }"@);
            assert(device.shown() == p4 + ") }"@);
        },
    }
}

/// A pack is shown in watt-hours, a span in seconds, and a threshold in watts.
pub proof fn a_figure_is_shown_in_its_unit(pack: WattHours, wh: int, d: Duration, mw: i64)
    ensures
        pack.parts == wh * 7_200_000 && -1_000_000_000 <= wh <= 1_000_000_000 ==> shown_pack(pack)
            == "WattHours("@ + in_full(wh * 1000) + ")"@,
        d.secs > 0 ==> shown_secs(d) == decimal(d.secs as nat) + "s"@,
        d.secs == 0 ==> shown_secs(d) == "0ns"@,
        i64::MIN < mw < i64::MAX ==> shown_threshold(mw) == in_full(mw as int),
        shown_threshold(i64::MAX) == "inf"@,
        shown_threshold(i64::MIN) == "-inf"@,
{
}

/// What may be left out is shown as some or none.
pub proof fn an_option_is_shown_as_some_or_none(
    mqtt: MqttConfig,
    shelly: ShellyConfig,
    web: WebConfig,
    day: Weekday,
    s: String,
    load: Watts,
    peak: Watts,
)
    ensures
        shown_mqtt(None) == "None"@,
        shown_mqtt(Some(mqtt)) == "Some("@ + mqtt.shown() + ")"@,
        shown_shelly(None) == "None"@,
        shows(shown_shelly(Some(shelly)), "Some(ShellyConfig { topic: "@, quoted(shelly.topic@)),
        shows(shown_shelly(Some(shelly)), ", solar_phase: "@, shelly.solar_phase.spec_name()),
        shown_web(None) == "None"@,
        shows(
            shown_web(Some(web)),
            "Some(WebConfig { bind_address: "@,
            web.bind_address.shown(),
        ),
        shows(shown_web(Some(web)), ", port: "@, decimal(web.port as nat)),
        shown_day(None) == "None"@,
        shown_day(Some(day)) == "Some("@ + day.spec_name() + ")"@,
        shown_option(None) == "None"@,
        shown_option(Some(s)) == "Some("@ + quoted(s@) + ")"@,
        shown_meter(MeterConfig::Shelly) == "Shelly"@,
        shown_meter(MeterConfig::Synthetic { base_load: load, solar_peak: peak })
            == "Synthetic { base_load: Watts("@ + signed(load.w as int) + "), solar_peak: Watts("@
            + signed(peak.w as int) + ") }"@,
        SolarPhase::A.spec_name() == "A"@,
        SolarPhase::B.spec_name() == "B"@,
        SolarPhase::C.spec_name() == "C"@,
{
    let p0 = "Some(ShellyConfig { topic: "@ + quoted(shelly.topic@);
    told_and_kept(Seq::empty(), "Some(ShellyConfig { topic: "@, quoted(shelly.topic@));
    assert(Seq::empty() + "Some(ShellyConfig { topic: "@ + quoted(shelly.topic@) =~= p0);
    let p1 = p0 + ", solar_phase: "@ + shelly.solar_phase.spec_name();
    told_and_kept(p0, ", solar_phase: "@, shelly.solar_phase.spec_name());
    told_and_kept(p1, " })"@, Seq::empty());
    assert(p1 + " })"@ + Seq::empty() =~= p1 + " })"@);
    let q0 = "Some(WebConfig { bind_address: "@ + web.bind_address.shown();
    told_and_kept(Seq::empty(), "Some(WebConfig { bind_address: "@, web.bind_address.shown());
    assert(Seq::empty() + "Some(WebConfig { bind_address: "@ + web.bind_address.shown() =~= q0);
    let q1 = q0 + ", port: "@ + decimal(web.port as nat);
    told_and_kept(q0, ", port: "@, decimal(web.port as nat));
    told_and_kept(q1, " })"@, Seq::empty());
    assert(q1 + " })"@ + Seq::empty() =~= q1 + " })"@);
}

} // verus!
