//! What Home Assistant is told, and the bytes it reads.

use vstd::prelude::*;

use crate::announce::{heard, told, Announcer};
use crate::device::PackTemperature;
use crate::json;
use crate::json::json_string;
use crate::models::{ControlDecision, CycleCounts, Decision};
use crate::publish::{exchange, Accepted, Delivery, Message, Notice, Publisher, Sent};
use crate::text;
use crate::text::{decimal, signed, whole_of_milli};
use crate::units::{DeciKelvin, KiloWattHours, Percent, Soc, Watts};

verus! {

// --- sensors -------------------------------------------------------------------

/// One sensor.
#[derive(Debug, Clone, Copy, PartialEq, Eq)]
pub struct Sensor {
    pub id: &'static str,
    pub name: &'static str,
    pub unit: &'static str,
    pub device_class: Option<&'static str>,
}

/// A [`Sensor`] as a mathematical value.
pub struct Gauge {
    pub id: Seq<char>,
    pub name: Seq<char>,
    pub unit: Seq<char>,
    pub device_class: Option<Seq<char>>,
}

impl View for Sensor {
    type V = Gauge;

    open spec fn view(&self) -> Gauge {
        Gauge {
            id: self.id@,
            name: self.name@,
            unit: self.unit@,
            device_class: match self.device_class {
                Some(class) => Some(class@),
                None => None,
            },
        }
    }
}

pub const DECISION_MODE: &'static str = "decision_mode";
pub const DECISION_POWER: &'static str = "decision_power";
pub const DECISION_REASON: &'static str = "decision_reason";
pub const DECISION_GRID_POWER: &'static str = "decision_grid_power";
pub const RTE_PERCENT: &'static str = "rte_percent";
pub const RTE_USABLE_KWH: &'static str = "rte_usable_kwh";
pub const RTE_TOTAL_CAPACITY_KWH: &'static str = "rte_total_capacity_kwh";
pub const ENCLOSURE_TEMP: &'static str = "enclosure_temp";
pub const BATTERY_SOC: &'static str = "battery_soc";
pub const BATTERY_CHARGE_POWER: &'static str = "battery_charge_power";
pub const BATTERY_DISCHARGE_POWER: &'static str = "battery_discharge_power";
pub const CONTROLLER_STATUS: &'static str = "controller_status";
pub const DAILY_CYCLES: &'static str = "daily_cycles";
pub const DAILY_COOLDOWN_SUPPRESSIONS: &'static str = "daily_cooldown_suppressions";

/// The one binary sensor.
pub const SOC_CALIBRATING: &'static str = "soc_calibrating";

pub open spec fn gauge(
    id: Seq<char>,
    name: Seq<char>,
    unit: Seq<char>,
    device_class: Option<Seq<char>>,
) -> Gauge {
    Gauge { id, name, unit, device_class }
}

/// Every sensor that is announced on connecting. Packs are not here: how many
/// there are is only known from a poll.
pub open spec fn gauges() -> Seq<Gauge> {
    seq![
        gauge(DECISION_MODE@, "Battery Decision Mode"@, ""@, None),
        gauge(DECISION_POWER@, "Battery Decision Power"@, "W"@, Some("power"@)),
        gauge(DECISION_REASON@, "Battery Decision Reason"@, ""@, None),
        gauge(DECISION_GRID_POWER@, "Grid Power (at decision)"@, "W"@, Some("power"@)),
        gauge(RTE_PERCENT@, "Battery Round-Trip Efficiency"@, "%"@, None),
        gauge(RTE_USABLE_KWH@, "Battery Usable Energy"@, "kWh"@, Some("energy"@)),
        gauge(RTE_TOTAL_CAPACITY_KWH@, "Battery Total Capacity"@, "kWh"@, Some("energy"@)),
        gauge(ENCLOSURE_TEMP@, "Battery Enclosure Temperature"@, "°C"@, Some("temperature"@)),
        gauge(BATTERY_SOC@, "Battery State of Charge"@, "%"@, Some("battery"@)),
        gauge(BATTERY_CHARGE_POWER@, "Battery Actual Charge Power"@, "W"@, Some("power"@)),
        gauge(BATTERY_DISCHARGE_POWER@, "Battery Actual Discharge Power"@, "W"@, Some("power"@)),
        gauge(CONTROLLER_STATUS@, "Controller Status"@, ""@, None),
        gauge(DAILY_CYCLES@, "Battery Daily Mode Transitions"@, ""@, None),
        gauge(DAILY_COOLDOWN_SUPPRESSIONS@, "Battery Daily Cooldown Suppressions"@, ""@, None),
    ]
}

fn sensor(
    id: &'static str,
    name: &'static str,
    unit: &'static str,
    device_class: Option<&'static str>,
) -> (out: Sensor)
    ensures
        out == (Sensor { id, name, unit, device_class }),
{
    Sensor { id, name, unit, device_class }
}

/// Every sensor that is announced on connecting.
pub fn sensors() -> (out: [Sensor; 14])
    ensures
        out@.map_values(|s: Sensor| s@) == gauges(),
{
    let out = [
        sensor(DECISION_MODE, "Battery Decision Mode", "", None),
        sensor(DECISION_POWER, "Battery Decision Power", "W", Some("power")),
        sensor(DECISION_REASON, "Battery Decision Reason", "", None),
        sensor(DECISION_GRID_POWER, "Grid Power (at decision)", "W", Some("power")),
        sensor(RTE_PERCENT, "Battery Round-Trip Efficiency", "%", None),
        sensor(RTE_USABLE_KWH, "Battery Usable Energy", "kWh", Some("energy")),
        sensor(RTE_TOTAL_CAPACITY_KWH, "Battery Total Capacity", "kWh", Some("energy")),
        sensor(ENCLOSURE_TEMP, "Battery Enclosure Temperature", "°C", Some("temperature")),
        sensor(BATTERY_SOC, "Battery State of Charge", "%", Some("battery")),
        sensor(BATTERY_CHARGE_POWER, "Battery Actual Charge Power", "W", Some("power")),
        sensor(BATTERY_DISCHARGE_POWER, "Battery Actual Discharge Power", "W", Some("power")),
        sensor(CONTROLLER_STATUS, "Controller Status", "", None),
        sensor(DAILY_CYCLES, "Battery Daily Mode Transitions", "", None),
        sensor(DAILY_COOLDOWN_SUPPRESSIONS, "Battery Daily Cooldown Suppressions", "", None),
    ];
    assert(out@.map_values(|s: Sensor| s@) =~= gauges());
    out
}

// --- documents -----------------------------------------------------------------

/// The Home Assistant device that every sensor is attached to.
pub open spec fn ha_device() -> Seq<char> {
    "\"device\":{\"identifiers\":[\"zendure_controller\"],\"manufacturer\":\"Zendure\",\"model\":\"AC 2400+\",\"name\":\"Zendure Controller\"}"@
}

/// A field of a document, with a text.
pub open spec fn text_field(key: Seq<char>, value: Seq<char>) -> Seq<char> {
    ",\""@ + key + "\":"@ + json_string(value)
}

/// Where the values of a sensor are published.
pub open spec fn topic(prefix: Seq<char>, id: Seq<char>) -> Seq<char> {
    prefix + "/"@ + id
}

/// The document of a sensor: a JSON object, its keys in order.
pub open spec fn document(prefix: Seq<char>, gauge: Gauge) -> Seq<char> {
    let class = match gauge.device_class {
        Some(class) => text_field("device_class"@, class),
        None => Seq::empty(),
    };
    let state_class = match gauge.device_class {
        Some(_) => text_field("state_class"@, "measurement"@),
        None => Seq::empty(),
    };
    let unit = if gauge.unit.len() == 0 {
        Seq::empty()
    } else {
        text_field("unit_of_measurement"@, gauge.unit)
    };
    "{"@ + ha_device() + class + text_field("name"@, gauge.name) + state_class + text_field(
        "state_topic"@,
        topic(prefix, gauge.id),
    ) + text_field("unique_id"@, "zendure_"@ + gauge.id) + unit + "}"@
}

/// The announcement of a sensor.
pub open spec fn announcement(prefix: Seq<char>, gauge: Gauge) -> Notice {
    Notice {
        topic: "homeassistant/sensor/zendure_"@ + gauge.id + "/config"@,
        payload: document(prefix, gauge),
        delivery: Delivery::Discovery,
    }
}

/// The announcement of the binary sensor.
pub open spec fn binary_announcement(prefix: Seq<char>) -> Notice {
    Notice {
        topic: "homeassistant/binary_sensor/zendure_"@ + SOC_CALIBRATING@ + "/config"@,
        payload: "{"@ + ha_device() + text_field("name"@, "Battery SOC Calibrating"@) + text_field(
            "payload_off"@,
            "OFF"@,
        ) + text_field("payload_on"@, "ON"@) + text_field(
            "state_topic"@,
            topic(prefix, SOC_CALIBRATING@),
        ) + text_field("unique_id"@, "zendure_"@ + SOC_CALIBRATING@) + "}"@,
        delivery: Delivery::Discovery,
    }
}

fn push_field(out: &mut String, key: &str, value: &str)
    ensures
        final(out)@ == old(out)@ + text_field(key@, value@),
{
    let ghost before = out@;
    out.append(",\"");
    out.append(key);
    out.append("\":");
    if let Some(quoted) = json::quote(value) {
        out.append(quoted.as_str());
    }
    assert(out@ =~= before + text_field(key@, value@));
}

fn topic_of(prefix: &str, id: &str) -> (out: String)
    ensures
        out@ == topic(prefix@, id@),
{
    let mut out = prefix.to_owned();
    out.append("/");
    out.append(id);
    out
}

fn unique_id(id: &str) -> (out: String)
    ensures
        out@ == "zendure_"@ + id@,
{
    let mut out = "zendure_".to_owned();
    out.append(id);
    out
}

/// The announcement of a sensor, for those whose id is only known from a poll
/// too.
pub fn sensor_discovery(
    prefix: &str,
    id: &str,
    name: &str,
    unit: &str,
    device_class: Option<&str>,
) -> (out: Message)
    ensures
        out@ == announcement(
            prefix@,
            gauge(
                id@,
                name@,
                unit@,
                match device_class {
                    Some(class) => Some(class@),
                    None => None,
                },
            ),
        ),
{
    let mut config = "{".to_owned();
    config.append(
        "\"device\":{\"identifiers\":[\"zendure_controller\"],\"manufacturer\":\"Zendure\",\"model\":\"AC 2400+\",\"name\":\"Zendure Controller\"}",
    );
    let ghost a = config@;
    if let Some(class) = device_class {
        push_field(&mut config, "device_class", class);
    } else {
        assert(config@ =~= a + Seq::<char>::empty());
    }
    push_field(&mut config, "name", name);
    let ghost b = config@;
    if device_class.is_some() {
        push_field(&mut config, "state_class", "measurement");
    } else {
        assert(config@ =~= b + Seq::<char>::empty());
    }
    push_field(&mut config, "state_topic", topic_of(prefix, id).as_str());
    push_field(&mut config, "unique_id", unique_id(id).as_str());
    let ghost c = config@;
    if text::chars_of(unit).len() > 0 {
        push_field(&mut config, "unit_of_measurement", unit);
    } else {
        assert(config@ =~= c + Seq::<char>::empty());
    }
    config.append("}");
    let mut topic = "homeassistant/sensor/zendure_".to_owned();
    topic.append(id);
    topic.append("/config");
    Message::discovery(topic, config)
}

impl Sensor {
    /// This sensor's announcement.
    pub fn discovery(&self, prefix: &str) -> (out: Message)
        ensures
            out@ == announcement(prefix@, self@),
    {
        sensor_discovery(prefix, self.id, self.name, self.unit, self.device_class)
    }
}

/// The announcement of the binary sensor.
pub fn calibrating_discovery(prefix: &str) -> (out: Message)
    ensures
        out@ == binary_announcement(prefix@),
{
    let mut config = "{".to_owned();
    config.append(
        "\"device\":{\"identifiers\":[\"zendure_controller\"],\"manufacturer\":\"Zendure\",\"model\":\"AC 2400+\",\"name\":\"Zendure Controller\"}",
    );
    push_field(&mut config, "name", "Battery SOC Calibrating");
    push_field(&mut config, "payload_off", "OFF");
    push_field(&mut config, "payload_on", "ON");
    push_field(&mut config, "state_topic", topic_of(prefix, SOC_CALIBRATING).as_str());
    push_field(&mut config, "unique_id", unique_id(SOC_CALIBRATING).as_str());
    config.append("}");
    let mut topic = "homeassistant/binary_sensor/zendure_".to_owned();
    topic.append(SOC_CALIBRATING);
    topic.append("/config");
    Message::discovery(topic, config)
}

// --- announcing ----------------------------------------------------------------

/// The ids of all sensors, the binary one last.
pub open spec fn all_ids() -> Seq<Seq<char>> {
    gauges().map_values(|g: Gauge| g.id).push(SOC_CALIBRATING@)
}

/// The announcements of all sensors, the binary one last.
pub open spec fn announcements(prefix: Seq<char>) -> Seq<Notice> {
    gauges().map_values(|g: Gauge| announcement(prefix, g)).push(binary_announcement(prefix))
}

/// What is announced once the first `n` documents were considered.
pub open spec fn known_after(
    known: Set<Seq<char>>,
    answers: Seq<Option<Accepted>>,
    n: int,
) -> Set<Seq<char>>
    decreases n,
{
    if n <= 0 {
        known
    } else {
        heard(known_after(known, answers, n - 1), all_ids()[n - 1], answers[n - 1])
    }
}

/// What a sink was handed once the first `n` documents were considered: those
/// that it answered to, in their order.
pub open spec fn told_after(
    documents: Seq<Notice>,
    answers: Seq<Option<Accepted>>,
    n: int,
) -> Seq<Sent>
    decreases n,
{
    if n <= 0 {
        Seq::empty()
    } else {
        told_after(documents, answers, n - 1) + told(documents[n - 1], answers[n - 1])
    }
}

/// A sink was asked about the first `n` documents exactly where they were not
/// announced when their turn came.
pub open spec fn asked_where_due(
    known: Set<Seq<char>>,
    answers: Seq<Option<Accepted>>,
    n: int,
) -> bool {
    forall|i: int|
        0 <= i < n ==> (#[trigger] answers[i] is None <==> known_after(known, answers, i).contains(
            all_ids()[i],
        ))
}

/// Announces every sensor that is not announced yet. Gives back how the sink
/// answered to each, if it was asked.
pub fn publish_ha_discovery<P: Publisher>(
    publisher: &mut P,
    announcer: &mut Announcer,
    prefix: &str,
) -> (out: Vec<Option<Accepted>>)
    ensures
        out@.len() == all_ids().len(),
        asked_where_due(old(announcer)@, out@, out@.len() as int),
        final(announcer)@ == known_after(old(announcer)@, out@, out@.len() as int),
        final(publisher).log() == old(publisher).log() + told_after(
            announcements(prefix@),
            out@,
            out@.len() as int,
        ),
{
    let table = sensors();
    let ghost known = announcer@;
    let ghost log = publisher.log();
    let mut out: Vec<Option<Accepted>> = Vec::new();
    for i in 0..14
        invariant
            known == old(announcer)@,
            log == old(publisher).log(),
            table@.map_values(|s: Sensor| s@) == gauges(),
            table@.len() == 14,
            out@.len() == i,
            asked_where_due(known, out@, i as int),
            announcer@ == known_after(known, out@, i as int),
            publisher.log() == log + told_after(announcements(prefix@), out@, i as int),
    {
        let sensor = table[i];
        assert(gauges()[i as int] == table@.map_values(|s: Sensor| s@)[i as int]);
        assert(all_ids()[i as int] == sensor.id@);
        assert(announcements(prefix@)[i as int] == announcement(prefix@, sensor@));
        let build = || -> (document: Message)
            ensures
                document@ == announcement(prefix@, sensor@),
            { sensor.discovery(prefix) };
        let answer = announcer.announce(publisher, sensor.id, build);
        let ghost before = out@;
        out.push(answer);
        proof {
            one_more_considered(known, announcements(prefix@), before, answer);
        }
    }
    assert(all_ids()[14] == SOC_CALIBRATING@);
    assert(announcements(prefix@)[14] == binary_announcement(prefix@));
    let build = || -> (document: Message)
        ensures
            document@ == binary_announcement(prefix@),
        { calibrating_discovery(prefix) };
    let answer = announcer.announce(publisher, SOC_CALIBRATING, build);
    let ghost before = out@;
    out.push(answer);
    proof {
        one_more_considered(known, announcements(prefix@), before, answer);
    }
    out
}

/// What considering one more document comes to.
proof fn one_more_considered(
    known: Set<Seq<char>>,
    documents: Seq<Notice>,
    before: Seq<Option<Accepted>>,
    answer: Option<Accepted>,
)
    requires
        asked_where_due(known, before, before.len() as int),
        answer is None <==> known_after(known, before, before.len() as int).contains(
            all_ids()[before.len() as int],
        ),
    ensures
        ({
            let after = before.push(answer);
            let n = before.len() as int;
            &&& asked_where_due(known, after, n + 1)
            &&& known_after(known, after, n + 1) == heard(
                known_after(known, before, n),
                all_ids()[n],
                answer,
            )
            &&& told_after(documents, after, n + 1) == told_after(documents, before, n) + told(
                documents[n],
                answer,
            )
        }),
{
    let after = before.push(answer);
    let n = before.len() as int;
    known_so_far(known, documents, before, after, n);
    assert forall|i: int| 0 <= i < n + 1 implies (#[trigger] after[i] is None <==> known_after(
        known,
        after,
        i,
    ).contains(all_ids()[i])) by {
        known_so_far(known, documents, before, after, i);
        if i < n {
            assert(after[i] == before[i]);
        }
    }
}

proof fn known_so_far(
    known: Set<Seq<char>>,
    documents: Seq<Notice>,
    before: Seq<Option<Accepted>>,
    after: Seq<Option<Accepted>>,
    n: int,
)
    requires
        0 <= n <= before.len() <= after.len(),
        forall|k: int| 0 <= k < before.len() ==> before[k] == #[trigger] after[k],
    ensures
        known_after(known, before, n) == known_after(known, after, n),
        told_after(documents, before, n) == told_after(documents, after, n),
    decreases n,
{
    if n > 0 {
        known_so_far(known, documents, before, after, n - 1);
        assert(before[n - 1] == after[n - 1]);
    }
}

// --- readings ------------------------------------------------------------------

/// A value on a sensor's topic.
pub open spec fn reading(prefix: Seq<char>, id: Seq<char>, value: Seq<char>) -> Notice {
    Notice { topic: topic(prefix, id), payload: value, delivery: Delivery::Telemetry }
}

fn publish_value<P: Publisher>(publisher: &mut P, prefix: &str, id: &str, value: String) -> (out:
    Accepted)
    ensures
        final(publisher).log() == old(publisher).log().push(
            Sent { notice: reading(prefix@, id@, value@), answer: out },
        ),
{
    let message = Message::telemetry(topic_of(prefix, id), value);
    assert(message@ == reading(prefix@, id@, value@));
    publisher.publish(message)
}

fn number(n: u32) -> (out: String)
    ensures
        out@ == decimal(n as nat),
{
    text::decimal_string(n as u64)
}

fn watts(power: Watts) -> (out: String)
    ensures
        out@ == signed(power.w as int),
{
    let mut out = String::new();
    text::push_signed(&mut out, power.get() as i128);
    assert(out@ =~= signed(power.w as int));
    out
}

/// What is published of a decision.
pub open spec fn decision_readings(prefix: Seq<char>, decision: Decision) -> Seq<Notice> {
    seq![
        reading(prefix, DECISION_MODE@, decision.mode.spec_name()),
        reading(prefix, DECISION_POWER@, decimal(decision.power.watts as nat)),
        reading(prefix, DECISION_REASON@, decision.reason),
        reading(prefix, DECISION_GRID_POWER@, whole_of_milli(decision.grid.mw as int)),
    ]
}

pub fn publish_decision<P: Publisher>(
    publisher: &mut P,
    prefix: &str,
    decision: &ControlDecision,
) -> (out: [Accepted; 4])
    ensures
        final(publisher).log() == old(publisher).log() + exchange(
            decision_readings(prefix@, decision@),
            out@,
        ),
{
    let mode = publish_value(publisher, prefix, DECISION_MODE, decision.mode.to_string());
    let power = publish_value(
        publisher,
        prefix,
        DECISION_POWER,
        number(decision.power_watts.get()),
    );
    let reason = publish_value(publisher, prefix, DECISION_REASON, decision.reason.clone());
    let mut grid = String::new();
    decision.grid_power.push_to(&mut grid);
    assert(grid@ =~= whole_of_milli(decision.grid_power.mw as int));
    let grid_power = publish_value(publisher, prefix, DECISION_GRID_POWER, grid);
    [mode, power, reason, grid_power]
}

/// What is published of the day's counters.
pub open spec fn cycle_readings(prefix: Seq<char>, counts: CycleCounts) -> Seq<Notice> {
    seq![
        reading(prefix, DAILY_CYCLES@, decimal(counts.daily_transitions as nat)),
        reading(
            prefix,
            DAILY_COOLDOWN_SUPPRESSIONS@,
            decimal(counts.daily_cooldown_suppressions as nat),
        ),
    ]
}

pub fn publish_cycle_counts<P: Publisher>(
    publisher: &mut P,
    prefix: &str,
    counts: &CycleCounts,
) -> (out: [Accepted; 2])
    ensures
        final(publisher).log() == old(publisher).log() + exchange(
            cycle_readings(prefix@, *counts),
            out@,
        ),
{
    let cycles = publish_value(
        publisher,
        prefix,
        DAILY_CYCLES,
        number(counts.daily_transitions),
    );
    let suppressions = publish_value(
        publisher,
        prefix,
        DAILY_COOLDOWN_SUPPRESSIONS,
        number(counts.daily_cooldown_suppressions),
    );
    [cycles, suppressions]
}

/// What is published of the efficiency: `unknown` rather than a figure there is
/// not.
pub open spec fn rte_readings(
    prefix: Seq<char>,
    rte_percent: Option<Percent>,
    usable: KiloWattHours,
    total_capacity: KiloWattHours,
) -> Seq<Notice> {
    seq![
        reading(
            prefix,
            RTE_PERCENT@,
            match rte_percent {
                Some(percent) => percent.spec_text(),
                None => "unknown"@,
            },
        ),
        reading(prefix, RTE_USABLE_KWH@, usable.spec_text()),
        reading(prefix, RTE_TOTAL_CAPACITY_KWH@, total_capacity.spec_text()),
    ]
}

pub fn publish_rte<P: Publisher>(
    publisher: &mut P,
    prefix: &str,
    rte_percent: Option<Percent>,
    usable: KiloWattHours,
    total_capacity: KiloWattHours,
) -> (out: [Accepted; 3])
    ensures
        final(publisher).log() == old(publisher).log() + exchange(
            rte_readings(prefix@, rte_percent, usable, total_capacity),
            out@,
        ),
{
    let percent = match rte_percent {
        Some(percent) => percent.to_string(),
        None => "unknown".to_owned(),
    };
    let rte = publish_value(publisher, prefix, RTE_PERCENT, percent);
    let recoverable = publish_value(publisher, prefix, RTE_USABLE_KWH, usable.to_string());
    let capacity = publish_value(
        publisher,
        prefix,
        RTE_TOTAL_CAPACITY_KWH,
        total_capacity.to_string(),
    );
    [rte, recoverable, capacity]
}

/// What is published of a calibration: Home Assistant's own two words.
pub open spec fn calibrating_reading(prefix: Seq<char>, calibrating: bool) -> Notice {
    reading(
        prefix,
        SOC_CALIBRATING@,
        if calibrating {
            "ON"@
        } else {
            "OFF"@
        },
    )
}

pub fn publish_soc_calibrating<P: Publisher>(
    publisher: &mut P,
    prefix: &str,
    calibrating: bool,
) -> (out: Accepted)
    ensures
        final(publisher).log() == old(publisher).log().push(
            Sent { notice: calibrating_reading(prefix@, calibrating), answer: out },
        ),
{
    let value = if calibrating {
        "ON".to_owned()
    } else {
        "OFF".to_owned()
    };
    publish_value(publisher, prefix, SOC_CALIBRATING, value)
}

/// What is published of the power that flows, in either direction.
pub open spec fn power_readings(prefix: Seq<char>, charge: Watts, discharge: Watts) -> Seq<Notice> {
    seq![
        reading(prefix, BATTERY_CHARGE_POWER@, signed(charge.w as int)),
        reading(prefix, BATTERY_DISCHARGE_POWER@, signed(discharge.w as int)),
    ]
}

pub fn publish_battery_power<P: Publisher>(
    publisher: &mut P,
    prefix: &str,
    charge: Watts,
    discharge: Watts,
) -> (out: [Accepted; 2])
    ensures
        final(publisher).log() == old(publisher).log() + exchange(
            power_readings(prefix@, charge, discharge),
            out@,
        ),
{
    let charging = publish_value(publisher, prefix, BATTERY_CHARGE_POWER, watts(charge));
    let discharging = publish_value(publisher, prefix, BATTERY_DISCHARGE_POWER, watts(discharge));
    [charging, discharging]
}

pub open spec fn status_reading(prefix: Seq<char>, status: Seq<char>) -> Notice {
    reading(prefix, CONTROLLER_STATUS@, status)
}

pub fn publish_status<P: Publisher>(publisher: &mut P, prefix: &str, status: &str) -> (out: Accepted)
    ensures
        final(publisher).log() == old(publisher).log().push(
            Sent { notice: status_reading(prefix@, status@), answer: out },
        ),
{
    publish_value(publisher, prefix, CONTROLLER_STATUS, status.to_owned())
}

pub open spec fn soc_reading(prefix: Seq<char>, soc: int) -> Notice {
    reading(prefix, BATTERY_SOC@, decimal(soc as nat))
}

pub fn publish_battery_soc<P: Publisher>(publisher: &mut P, prefix: &str, soc: Soc) -> (out: Accepted)
    ensures
        final(publisher).log() == old(publisher).log().push(
            Sent { notice: soc_reading(prefix@, soc@), answer: out },
        ),
{
    publish_value(publisher, prefix, BATTERY_SOC, number(soc.get()))
}

/// The sensor of a pack.
pub open spec fn pack_gauge(index: int) -> Gauge {
    gauge(
        "pack"@ + decimal(index as nat) + "_temp"@,
        "Battery Pack "@ + decimal(index as nat) + " Temperature"@,
        "°C"@,
        Some("temperature"@),
    )
}

pub open spec fn pack_reading(prefix: Seq<char>, pack: PackTemperature) -> Notice {
    reading(prefix, pack_gauge(pack.index as int).id, pack.temp.spec_celsius_text())
}

pub open spec fn enclosure_reading(prefix: Seq<char>, temp: DeciKelvin) -> Notice {
    reading(prefix, ENCLOSURE_TEMP@, temp.spec_celsius_text())
}

/// How a sink answered to one pack: to its announcement, if that was due, and to
/// its temperature.
#[derive(Debug, Clone, Copy, PartialEq, Eq, Structural)]
pub struct PackAnswer {
    pub announced: Option<Accepted>,
    pub published: Accepted,
}

/// What is announced once the first `n` packs were considered.
pub open spec fn packs_known_after(
    known: Set<Seq<char>>,
    packs: Seq<PackTemperature>,
    answers: Seq<PackAnswer>,
    n: int,
) -> Set<Seq<char>>
    decreases n,
{
    if n <= 0 {
        known
    } else {
        heard(
            packs_known_after(known, packs, answers, n - 1),
            pack_gauge(packs[n - 1].index as int).id,
            answers[n - 1].announced,
        )
    }
}

/// What a sink was handed of the first `n` packs: of each its document, where
/// that was due, and then its temperature.
pub open spec fn packs_told_after(
    prefix: Seq<char>,
    packs: Seq<PackTemperature>,
    answers: Seq<PackAnswer>,
    n: int,
) -> Seq<Sent>
    decreases n,
{
    if n <= 0 {
        Seq::empty()
    } else {
        let pack = packs[n - 1];
        let answer = answers[n - 1];
        packs_told_after(prefix, packs, answers, n - 1) + told(
            announcement(prefix, pack_gauge(pack.index as int)),
            answer.announced,
        ) + seq![Sent { notice: pack_reading(prefix, pack), answer: answer.published }]
    }
}

/// A sink was asked about the documents of the first `n` packs exactly where
/// they were not announced when their turn came.
pub open spec fn packs_asked_where_due(
    known: Set<Seq<char>>,
    packs: Seq<PackTemperature>,
    answers: Seq<PackAnswer>,
    n: int,
) -> bool {
    forall|i: int|
        0 <= i < n ==> (#[trigger] answers[i].announced is None <==> packs_known_after(
            known,
            packs,
            answers,
            i,
        ).contains(pack_gauge(packs[i].index as int).id))
}

/// What a sink was handed of the temperatures: those of the packs first, and
/// then that of the enclosure, where there is one.
pub open spec fn temperatures_told(
    prefix: Seq<char>,
    enclosure_temp: Option<DeciKelvin>,
    packs: Seq<PackTemperature>,
    answers: Seq<PackAnswer>,
    enclosure: Option<Accepted>,
) -> Seq<Sent> {
    packs_told_after(prefix, packs, answers, packs.len() as int) + match enclosure_temp {
        Some(temp) => told(enclosure_reading(prefix, temp), enclosure),
        None => Seq::empty(),
    }
}

/// Publishes the temperatures. Packs are announced from here, since how many
/// there are is only known from a poll.
pub fn publish_temperatures<P: Publisher>(
    publisher: &mut P,
    announcer: &mut Announcer,
    prefix: &str,
    enclosure_temp: Option<DeciKelvin>,
    pack_temps: &[PackTemperature],
) -> (out: (Vec<PackAnswer>, Option<Accepted>))
    ensures
        out.0@.len() == pack_temps@.len(),
        out.1 is Some <==> enclosure_temp is Some,
        packs_asked_where_due(old(announcer)@, pack_temps@, out.0@, pack_temps@.len() as int),
        final(announcer)@ == packs_known_after(
            old(announcer)@,
            pack_temps@,
            out.0@,
            pack_temps@.len() as int,
        ),
        final(publisher).log() == old(publisher).log() + temperatures_told(
            prefix@,
            enclosure_temp,
            pack_temps@,
            out.0@,
            out.1,
        ),
{
    let ghost known = announcer@;
    let ghost log = publisher.log();
    let mut answers: Vec<PackAnswer> = Vec::new();
    for i in 0..pack_temps.len()
        invariant
            known == old(announcer)@,
            log == old(publisher).log(),
            answers@.len() == i,
            packs_asked_where_due(known, pack_temps@, answers@, i as int),
            announcer@ == packs_known_after(known, pack_temps@, answers@, i as int),
            publisher.log() == log + packs_told_after(prefix@, pack_temps@, answers@, i as int),
    {
        let pack = pack_temps[i];
        let mut id = "pack".to_owned();
        text::push_decimal(&mut id, pack.index as u128);
        id.append("_temp");
        let mut name = "Battery Pack ".to_owned();
        text::push_decimal(&mut name, pack.index as u128);
        name.append(" Temperature");
        assert(id@ == pack_gauge(pack.index as int).id);
        let (sensor, label) = (id.as_str(), name.as_str());
        let build = || -> (document: Message)
            ensures
                document@ == announcement(prefix@, pack_gauge(pack.index as int)),
            { sensor_discovery(prefix, sensor, label, "°C", Some("temperature")) };
        let announced = announcer.announce(publisher, sensor, build);
        let published = publish_value(publisher, prefix, sensor, pack.temp.celsius_text());
        let ghost before = answers@;
        answers.push(PackAnswer { announced, published });
        proof {
            one_more_pack(known, prefix@, pack_temps@, before, answers@[i as int]);
        }
    }
    let enclosure = match enclosure_temp {
        Some(temp) => Some(publish_value(publisher, prefix, ENCLOSURE_TEMP, temp.celsius_text())),
        None => None,
    };
    (answers, enclosure)
}

/// What publishing one more pack comes to.
proof fn one_more_pack(
    known: Set<Seq<char>>,
    prefix: Seq<char>,
    packs: Seq<PackTemperature>,
    before: Seq<PackAnswer>,
    answer: PackAnswer,
)
    requires
        before.len() < packs.len(),
        packs_asked_where_due(known, packs, before, before.len() as int),
        answer.announced is None <==> packs_known_after(
            known,
            packs,
            before,
            before.len() as int,
        ).contains(pack_gauge(packs[before.len() as int].index as int).id),
    ensures
        ({
            let after = before.push(answer);
            let n = before.len() as int;
            let pack = packs[n];
            &&& packs_asked_where_due(known, packs, after, n + 1)
            &&& packs_known_after(known, packs, after, n + 1) == heard(
                packs_known_after(known, packs, before, n),
                pack_gauge(pack.index as int).id,
                answer.announced,
            )
            &&& packs_told_after(prefix, packs, after, n + 1) == packs_told_after(
                prefix,
                packs,
                before,
                n,
            ) + told(announcement(prefix, pack_gauge(pack.index as int)), answer.announced)
                + seq![Sent { notice: pack_reading(prefix, pack), answer: answer.published }]
        }),
{
    let after = before.push(answer);
    let n = before.len() as int;
    packs_known_so_far(known, prefix, packs, before, after, n);
    assert forall|i: int| 0 <= i < n + 1 implies (#[trigger] after[i].announced is None
        <==> packs_known_after(known, packs, after, i).contains(
        pack_gauge(packs[i].index as int).id,
    )) by {
        packs_known_so_far(known, prefix, packs, before, after, i);
        if i < n {
            assert(after[i] == before[i]);
            assert(before[i].announced is None <==> packs_known_after(
                known,
                packs,
                before,
                i,
            ).contains(pack_gauge(packs[i].index as int).id));
        }
    }
}

proof fn packs_known_so_far(
    known: Set<Seq<char>>,
    prefix: Seq<char>,
    packs: Seq<PackTemperature>,
    before: Seq<PackAnswer>,
    after: Seq<PackAnswer>,
    n: int,
)
    requires
        0 <= n <= before.len() <= after.len(),
        forall|k: int| 0 <= k < before.len() ==> before[k] == #[trigger] after[k],
    ensures
        packs_known_after(known, packs, before, n) == packs_known_after(known, packs, after, n),
        packs_told_after(prefix, packs, before, n) == packs_told_after(prefix, packs, after, n),
    decreases n,
{
    if n > 0 {
        packs_known_so_far(known, prefix, packs, before, after, n - 1);
        assert(before[n - 1] == after[n - 1]);
    }
}

// --- laws ----------------------------------------------------------------------

/// Everything that is published of one poll and one decision, packs left out.
pub open spec fn all_readings(
    prefix: Seq<char>,
    decision: Decision,
    counts: CycleCounts,
    rte: (Option<Percent>, KiloWattHours, KiloWattHours),
    calibrating: bool,
    flow: (Watts, Watts),
    status: Seq<char>,
    soc: int,
    enclosure: DeciKelvin,
) -> Seq<Notice> {
    decision_readings(prefix, decision) + cycle_readings(prefix, counts) + rte_readings(
        prefix,
        rte.0,
        rte.1,
        rte.2,
    ) + power_readings(prefix, flow.0, flow.1) + seq![
        calibrating_reading(prefix, calibrating),
        status_reading(prefix, status),
        soc_reading(prefix, soc),
        enclosure_reading(prefix, enclosure),
    ]
}

/// Every announced sensor gets values, and every value has a sensor: whatever is
/// published, its topics are those of the announced sensors, and all of them.
pub proof fn every_announced_sensor_is_published_and_the_reverse(
    prefix: Seq<char>,
    decision: Decision,
    counts: CycleCounts,
    rte: (Option<Percent>, KiloWattHours, KiloWattHours),
    calibrating: bool,
    flow: (Watts, Watts),
    status: Seq<char>,
    soc: int,
    enclosure: DeciKelvin,
)
    ensures
        ({
            let published = all_readings(
                prefix,
                decision,
                counts,
                rte,
                calibrating,
                flow,
                status,
                soc,
                enclosure,
            );
            &&& forall|i: int|
                0 <= i < all_ids().len() ==> exists|k: int|
                    0 <= k < published.len() && (#[trigger] published[k]).topic == topic(
                        prefix,
                        #[trigger] all_ids()[i],
                    )
            &&& forall|k: int|
                0 <= k < published.len() ==> exists|i: int|
                    0 <= i < all_ids().len() && (#[trigger] published[k]).topic == topic(
                        prefix,
                        #[trigger] all_ids()[i],
                    )
        }),
{
    let published = all_readings(
        prefix,
        decision,
        counts,
        rte,
        calibrating,
        flow,
        status,
        soc,
        enclosure,
    );
    let ids = all_ids();
    assert(published.len() == 15);
    assert(ids.len() == 15);
    assert(published[0].topic == topic(prefix, ids[0]));
    assert(published[1].topic == topic(prefix, ids[1]));
    assert(published[2].topic == topic(prefix, ids[2]));
    assert(published[3].topic == topic(prefix, ids[3]));
    assert(published[4].topic == topic(prefix, ids[12]));
    assert(published[5].topic == topic(prefix, ids[13]));
    assert(published[6].topic == topic(prefix, ids[4]));
    assert(published[7].topic == topic(prefix, ids[5]));
    assert(published[8].topic == topic(prefix, ids[6]));
    assert(published[9].topic == topic(prefix, ids[9]));
    assert(published[10].topic == topic(prefix, ids[10]));
    assert(published[11].topic == topic(prefix, ids[14]));
    assert(published[12].topic == topic(prefix, ids[11]));
    assert(published[13].topic == topic(prefix, ids[8]));
    assert(published[14].topic == topic(prefix, ids[7]));
}

/// No two sensors share an id.
pub proof fn every_sensor_has_an_id_of_its_own()
    ensures
        all_ids().no_duplicates(),
{
    let ids = all_ids();
    reveal_strlit("decision_mode");
    reveal_strlit("decision_power");
    reveal_strlit("decision_reason");
    reveal_strlit("decision_grid_power");
    reveal_strlit("rte_percent");
    reveal_strlit("rte_usable_kwh");
    reveal_strlit("rte_total_capacity_kwh");
    reveal_strlit("enclosure_temp");
    reveal_strlit("battery_soc");
    reveal_strlit("battery_charge_power");
    reveal_strlit("battery_discharge_power");
    reveal_strlit("controller_status");
    reveal_strlit("daily_cycles");
    reveal_strlit("daily_cooldown_suppressions");
    reveal_strlit("soc_calibrating");
    assert(ids[0].len() == 13 && ids[0][0] == 'd');
    assert(ids[1].len() == 14 && ids[1][0] == 'd');
    assert(ids[2].len() == 15 && ids[2][0] == 'd');
    assert(ids[3].len() == 19 && ids[3][0] == 'd');
    assert(ids[4].len() == 11 && ids[4][0] == 'r');
    assert(ids[5].len() == 14 && ids[5][0] == 'r');
    assert(ids[6].len() == 22 && ids[6][0] == 'r');
    assert(ids[7].len() == 14 && ids[7][0] == 'e');
    assert(ids[8].len() == 11 && ids[8][0] == 'b');
    assert(ids[9].len() == 20 && ids[9][0] == 'b');
    assert(ids[10].len() == 23 && ids[10][0] == 'b');
    assert(ids[11].len() == 17 && ids[11][0] == 'c');
    assert(ids[12].len() == 12 && ids[12][0] == 'd');
    assert(ids[13].len() == 27 && ids[13][0] == 'd');
    assert(ids[14].len() == 15 && ids[14][0] == 's');
    assert forall|i: int, j: int| 0 <= i < j < ids.len() implies ids[i] != ids[j] by {
        if ids[i] == ids[j] {
            assert(ids[i].len() == ids[j].len() && ids[i][0] == ids[j][0]);
        }
    }
}

/// What is known of a sensor once the first `n` documents were considered.
proof fn known_of(known: Set<Seq<char>>, answers: Seq<Option<Accepted>>, n: int, i: int)
    requires
        0 <= n <= all_ids().len(),
        0 <= i < all_ids().len(),
    ensures
        known_after(known, answers, n).contains(all_ids()[i]) <==> known.contains(all_ids()[i])
            || (i < n && answers[i] == Some(Accepted::Queued)),
    decreases n,
{
    if n > 0 {
        known_of(known, answers, n - 1, i);
        if i != n - 1 {
            assert(all_ids()[i] != all_ids()[n - 1]) by {
                every_sensor_has_an_id_of_its_own();
            }
        }
    }
}

/// On a fresh connection every document is published, once each and in order.
pub proof fn a_fresh_connection_is_told_of_every_sensor(
    prefix: Seq<char>,
    answers: Seq<Option<Accepted>>,
)
    requires
        answers.len() == all_ids().len(),
        asked_where_due(Set::empty(), answers, answers.len() as int),
    ensures
        told_after(announcements(prefix), answers, answers.len() as int) == exchange(
            announcements(prefix),
            answers.map_values(|answer: Option<Accepted>| answer->Some_0),
        ),
{
    let documents = announcements(prefix);
    let given = answers.map_values(|answer: Option<Accepted>| answer->Some_0);
    assert forall|i: int| 0 <= i < answers.len() implies #[trigger] answers[i] is Some by {
        known_of(Set::empty(), answers, i, i);
    }
    let n = answers.len() as int;
    all_told(documents, answers, n);
    assert(documents.take(n) =~= documents);
    assert(given.take(n) =~= given);
}

proof fn all_told(documents: Seq<Notice>, answers: Seq<Option<Accepted>>, n: int)
    requires
        0 <= n <= answers.len(),
        n <= documents.len(),
        forall|i: int| 0 <= i < n ==> #[trigger] answers[i] is Some,
    ensures
        told_after(documents, answers, n) == exchange(
            documents.take(n),
            answers.map_values(|answer: Option<Accepted>| answer->Some_0).take(n),
        ),
    decreases n,
{
    if n > 0 {
        all_told(documents, answers, n - 1);
        assert(answers[n - 1] is Some);
    }
}

/// A round of announcements asks about a sensor exactly if it was not known
/// before the round.
proof fn a_round_asks_about_the_unknown(
    known: Set<Seq<char>>,
    answers: Seq<Option<Accepted>>,
    i: int,
)
    requires
        asked_where_due(known, answers, answers.len() as int),
        answers.len() == all_ids().len(),
        0 <= i < answers.len(),
    ensures
        answers[i] is None <==> known.contains(all_ids()[i]),
{
    known_of(known, answers, i, i);
    assert(answers[i] is None <==> known_after(known, answers, i).contains(all_ids()[i]));
}

/// Announcing again on the same connection publishes exactly the documents that
/// were refused the first time: a taken one is not repeated, and neither is one
/// that was announced before.
#[verifier::spinoff_prover]
pub proof fn announcing_again_repeats_what_was_refused(
    known: Set<Seq<char>>,
    first: Seq<Option<Accepted>>,
    second: Seq<Option<Accepted>>,
    i: int,
)
    requires
        first.len() == all_ids().len(),
        second.len() == all_ids().len(),
        asked_where_due(known, first, first.len() as int),
        asked_where_due(
            known_after(known, first, first.len() as int),
            second,
            second.len() as int,
        ),
        0 <= i < all_ids().len(),
    ensures
        second[i] is Some <==> first[i] == Some(Accepted::Dropped),
{
    let between = known_after(known, first, first.len() as int);
    a_round_asks_about_the_unknown(known, first, i);
    a_round_asks_about_the_unknown(between, second, i);
    known_of(known, first, first.len() as int, i);
}

/// A discovery document is always retained, and a reading never is.
pub proof fn documents_are_retained_and_readings_are_not(
    prefix: Seq<char>,
    i: int,
    id: Seq<char>,
    value: Seq<char>,
)
    requires
        0 <= i < announcements(prefix).len(),
    ensures
        announcements(prefix)[i].delivery == Delivery::Discovery,
        reading(prefix, id, value).delivery == Delivery::Telemetry,
{
}

/// The sensors are these, in this order, and each is announced and published by the
/// same name.
pub proof fn the_sensors_are_these()
    ensures
        all_ids()[0] == "decision_mode"@,
        all_ids()[1] == "decision_power"@,
        all_ids()[2] == "decision_reason"@,
        all_ids()[3] == "decision_grid_power"@,
        all_ids()[4] == "rte_percent"@,
        all_ids()[5] == "rte_usable_kwh"@,
        all_ids()[6] == "rte_total_capacity_kwh"@,
        all_ids()[7] == "enclosure_temp"@,
        all_ids()[8] == "battery_soc"@,
        all_ids()[9] == "battery_charge_power"@,
        all_ids()[10] == "battery_discharge_power"@,
        all_ids()[11] == "controller_status"@,
        all_ids()[12] == "daily_cycles"@,
        all_ids()[13] == "daily_cooldown_suppressions"@,
        all_ids()[14] == "soc_calibrating"@,
        all_ids().len() == 15,
{
}

/// A sensor is shown with the name, the unit and the class that its figures have.
pub proof fn a_sensor_has_the_unit_of_its_figures(i: int, sensor: Gauge)
    requires
        0 <= i < gauges().len(),
        sensor == gauges()[i],
    ensures
        i == 0 ==> sensor == (Gauge {
            id: "decision_mode"@,
            name: "Battery Decision Mode"@,
            unit: ""@,
            device_class: None,
        }),
        i == 1 ==> sensor == (Gauge {
            id: "decision_power"@,
            name: "Battery Decision Power"@,
            unit: "W"@,
            device_class: Some("power"@),
        }),
        i == 2 ==> sensor == (Gauge {
            id: "decision_reason"@,
            name: "Battery Decision Reason"@,
            unit: ""@,
            device_class: None,
        }),
        i == 3 ==> sensor == (Gauge {
            id: "decision_grid_power"@,
            name: "Grid Power (at decision)"@,
            unit: "W"@,
            device_class: Some("power"@),
        }),
        i == 4 ==> sensor == (Gauge {
            id: "rte_percent"@,
            name: "Battery Round-Trip Efficiency"@,
            unit: "%"@,
            device_class: None,
        }),
        i == 5 ==> sensor == (Gauge {
            id: "rte_usable_kwh"@,
            name: "Battery Usable Energy"@,
            unit: "kWh"@,
            device_class: Some("energy"@),
        }),
        i == 6 ==> sensor == (Gauge {
            id: "rte_total_capacity_kwh"@,
            name: "Battery Total Capacity"@,
            unit: "kWh"@,
            device_class: Some("energy"@),
        }),
        i == 7 ==> sensor == (Gauge {
            id: "enclosure_temp"@,
            name: "Battery Enclosure Temperature"@,
            unit: "°C"@,
            device_class: Some("temperature"@),
        }),
        i == 8 ==> sensor == (Gauge {
            id: "battery_soc"@,
            name: "Battery State of Charge"@,
            unit: "%"@,
            device_class: Some("battery"@),
        }),
        i == 9 ==> sensor == (Gauge {
            id: "battery_charge_power"@,
            name: "Battery Actual Charge Power"@,
            unit: "W"@,
            device_class: Some("power"@),
        }),
        i == 10 ==> sensor == (Gauge {
            id: "battery_discharge_power"@,
            name: "Battery Actual Discharge Power"@,
            unit: "W"@,
            device_class: Some("power"@),
        }),
        i == 11 ==> sensor == (Gauge {
            id: "controller_status"@,
            name: "Controller Status"@,
            unit: ""@,
            device_class: None,
        }),
        i == 12 ==> sensor == (Gauge {
            id: "daily_cycles"@,
            name: "Battery Daily Mode Transitions"@,
            unit: ""@,
            device_class: None,
        }),
        i == 13 ==> sensor == (Gauge {
            id: "daily_cooldown_suppressions"@,
            name: "Battery Daily Cooldown Suppressions"@,
            unit: ""@,
            device_class: None,
        }),
{
}

/// What is published of a decision stands on the decision's own topics: its mode by
/// name, its power and the reading that it answers in watts, and why.
pub proof fn a_decision_is_published_as_it_was_made(prefix: Seq<char>, decision: Decision)
    ensures
        ({
            let out = decision_readings(prefix, decision);
            &&& out.len() == 4
            &&& out[0].topic == prefix + "/"@ + "decision_mode"@
            &&& out[0].payload == decision.mode.spec_name()
            &&& out[1].topic == prefix + "/"@ + "decision_power"@
            &&& out[1].payload == decimal(decision.power.watts as nat)
            &&& out[2].topic == prefix + "/"@ + "decision_reason"@
            &&& out[2].payload == decision.reason
            &&& out[3].topic == prefix + "/"@ + "decision_grid_power"@
            &&& out[3].payload == whole_of_milli(decision.grid.mw as int)
        }),
{
}

/// The day's counters stand on their own topics.
pub proof fn counters_are_published_as_they_stand(prefix: Seq<char>, counts: CycleCounts)
    ensures
        ({
            let out = cycle_readings(prefix, counts);
            &&& out.len() == 2
            &&& out[0].topic == prefix + "/"@ + "daily_cycles"@
            &&& out[0].payload == decimal(counts.daily_transitions as nat)
            &&& out[1].topic == prefix + "/"@ + "daily_cooldown_suppressions"@
            &&& out[1].payload == decimal(counts.daily_cooldown_suppressions as nat)
        }),
{
}

/// The efficiency is `unknown` exactly while there is none, and the two energies
/// stand on their own topics.
pub proof fn efficiency_is_published_or_unknown(
    prefix: Seq<char>,
    rte: Option<Percent>,
    usable: KiloWattHours,
    capacity: KiloWattHours,
)
    ensures
        ({
            let out = rte_readings(prefix, rte, usable, capacity);
            &&& out.len() == 3
            &&& out[0].topic == prefix + "/"@ + "rte_percent"@
            &&& rte is None ==> out[0].payload == "unknown"@
            &&& rte matches Some(percent) ==> out[0].payload == percent.spec_text()
            &&& out[1].topic == prefix + "/"@ + "rte_usable_kwh"@
            &&& out[1].payload == usable.spec_text()
            &&& out[2].topic == prefix + "/"@ + "rte_total_capacity_kwh"@
            &&& out[2].payload == capacity.spec_text()
        }),
{
}

/// What a battery is, does and says stands on its own topics: power in and power out
/// apart, a calibration as on or off.
pub proof fn a_battery_is_published_as_it_is(
    prefix: Seq<char>,
    calibrating: bool,
    charge: Watts,
    discharge: Watts,
    status: Seq<char>,
    soc: int,
    enclosure: DeciKelvin,
    pack: PackTemperature,
)
    ensures
        calibrating_reading(prefix, calibrating).topic == prefix + "/"@ + "soc_calibrating"@,
        calibrating ==> calibrating_reading(prefix, calibrating).payload == "ON"@,
        !calibrating ==> calibrating_reading(prefix, calibrating).payload == "OFF"@,
        power_readings(prefix, charge, discharge).len() == 2,
        power_readings(prefix, charge, discharge)[0].topic == prefix + "/"@
            + "battery_charge_power"@,
        power_readings(prefix, charge, discharge)[0].payload == signed(charge.w as int),
        power_readings(prefix, charge, discharge)[1].topic == prefix + "/"@
            + "battery_discharge_power"@,
        power_readings(prefix, charge, discharge)[1].payload == signed(discharge.w as int),
        status_reading(prefix, status).topic == prefix + "/"@ + "controller_status"@,
        status_reading(prefix, status).payload == status,
        soc_reading(prefix, soc).topic == prefix + "/"@ + "battery_soc"@,
        soc_reading(prefix, soc).payload == decimal(soc as nat),
        enclosure_reading(prefix, enclosure).topic == prefix + "/"@ + "enclosure_temp"@,
        enclosure_reading(prefix, enclosure).payload == enclosure.spec_celsius_text(),
        pack_reading(prefix, pack).topic == prefix + "/"@ + ("pack"@ + decimal(pack.index as nat)
            + "_temp"@),
        pack_reading(prefix, pack).payload == pack.temp.spec_celsius_text(),
{
}

/// A field of a document stands in it.
pub open spec fn has_field(payload: Seq<char>, key: Seq<char>, value: Seq<char>) -> bool {
    exists|at: int|
        0 <= at && at + (",\""@ + key + "\":"@ + json_string(value)).len() <= payload.len()
            && #[trigger] payload.subrange(
            at,
            at + (",\""@ + key + "\":"@ + json_string(value)).len(),
        ) == ",\""@ + key + "\":"@ + json_string(value)
}

/// A field that is put behind something stands in the whole.
proof fn a_field_is_there(front: Seq<char>, key: Seq<char>, value: Seq<char>)
    ensures
        has_field(front + text_field(key, value), key, value),
{
    let f = text_field(key, value);
    let whole = front + f;
    assert(whole.subrange(front.len() as int, front.len() as int + f.len()) =~= f);
}

/// A field stays where it is when more is put behind it.
proof fn a_field_stays(front: Seq<char>, key: Seq<char>, value: Seq<char>, more: Seq<char>)
    requires
        has_field(front, key, value),
    ensures
        has_field(front + more, key, value),
{
    let len = (",\""@ + key + "\":"@ + json_string(value)).len();
    let at = choose|at: int|
        0 <= at && at + len <= front.len() && #[trigger] front.subrange(at, at + len) == ",\""@
            + key + "\":"@ + json_string(value);
    let whole = front + more;
    assert(whole.subrange(at, at + len) =~= front.subrange(at, at + len));
}

/// A document tells Home Assistant where the values of its sensor are published, what
/// it is called, how it is told from others and in what unit it is, and goes to the
/// topic that Home Assistant looks for it on.
pub proof fn a_document_points_to_its_values(prefix: Seq<char>, sensor: Gauge, value: Seq<char>)
    ensures
        ({
            let notice = announcement(prefix, sensor);
            &&& notice.topic == "homeassistant/sensor/zendure_"@ + sensor.id + "/config"@
            &&& has_field(
                notice.payload,
                "state_topic"@,
                reading(prefix, sensor.id, value).topic,
            )
            &&& has_field(notice.payload, "name"@, sensor.name)
            &&& has_field(notice.payload, "unique_id"@, "zendure_"@ + sensor.id)
            &&& sensor.unit.len() > 0 ==> has_field(
                notice.payload,
                "unit_of_measurement"@,
                sensor.unit,
            )
            &&& sensor.device_class matches Some(class) ==> has_field(
                notice.payload,
                "device_class"@,
                class,
            ) && has_field(notice.payload, "state_class"@, "measurement"@)
            &&& notice.delivery == Delivery::Discovery
        }),
{
    let class = match sensor.device_class {
        Some(class) => text_field("device_class"@, class),
        None => Seq::empty(),
    };
    let state_class = match sensor.device_class {
        Some(_) => text_field("state_class"@, "measurement"@),
        None => Seq::empty(),
    };
    let unit = if sensor.unit.len() == 0 {
        Seq::empty()
    } else {
        text_field("unit_of_measurement"@, sensor.unit)
    };
    let name = text_field("name"@, sensor.name);
    let place = text_field("state_topic"@, topic(prefix, sensor.id));
    let unique = text_field("unique_id"@, "zendure_"@ + sensor.id);
    let end = "}"@;
    let l0 = "{"@ + ha_device();
    let l1 = l0 + class;
    let l2 = l1 + name;
    let l3 = l2 + state_class;
    let l4 = l3 + place;
    let l5 = l4 + unique;
    let l6 = l5 + unit;
    assert(document(prefix, sensor) == l6 + end);
    let key = "name"@;
    a_field_is_there(l1, key, sensor.name);
    a_field_stays(l2, key, sensor.name, state_class);
    a_field_stays(l3, key, sensor.name, place);
    a_field_stays(l4, key, sensor.name, unique);
    a_field_stays(l5, key, sensor.name, unit);
    a_field_stays(l6, key, sensor.name, end);
    let key = "state_topic"@;
    let kept = topic(prefix, sensor.id);
    a_field_is_there(l3, key, kept);
    a_field_stays(l4, key, kept, unique);
    a_field_stays(l5, key, kept, unit);
    a_field_stays(l6, key, kept, end);
    let key = "unique_id"@;
    let kept = "zendure_"@ + sensor.id;
    a_field_is_there(l4, key, kept);
    a_field_stays(l5, key, kept, unit);
    a_field_stays(l6, key, kept, end);
    if sensor.unit.len() > 0 {
        let key = "unit_of_measurement"@;
        a_field_is_there(l5, key, sensor.unit);
        a_field_stays(l6, key, sensor.unit, end);
    }
    if let Some(given) = sensor.device_class {
        let key = "device_class"@;
        a_field_is_there(l0, key, given);
        a_field_stays(l1, key, given, name);
        a_field_stays(l2, key, given, state_class);
        a_field_stays(l3, key, given, place);
        a_field_stays(l4, key, given, unique);
        a_field_stays(l5, key, given, unit);
        a_field_stays(l6, key, given, end);
        let key = "state_class"@;
        let kept = "measurement"@;
        a_field_is_there(l2, key, kept);
        a_field_stays(l3, key, kept, place);
        a_field_stays(l4, key, kept, unique);
        a_field_stays(l5, key, kept, unit);
        a_field_stays(l6, key, kept, end);
    }
}

/// The document of the binary sensor points to where a calibration is published, and
/// names the two words that are published there.
pub proof fn the_binary_document_points_to_its_values(prefix: Seq<char>)
    ensures
        ({
            let notice = binary_announcement(prefix);
            &&& notice.topic == "homeassistant/binary_sensor/zendure_"@ + "soc_calibrating"@
                + "/config"@
            &&& has_field(
                notice.payload,
                "state_topic"@,
                calibrating_reading(prefix, true).topic,
            )
            &&& has_field(
                notice.payload,
                "payload_on"@,
                calibrating_reading(prefix, true).payload,
            )
            &&& has_field(
                notice.payload,
                "payload_off"@,
                calibrating_reading(prefix, false).payload,
            )
            &&& has_field(notice.payload, "unique_id"@, "zendure_"@ + "soc_calibrating"@)
            &&& has_field(notice.payload, "name"@, "Battery SOC Calibrating"@)
        }),
{
    let l0 = "{"@ + ha_device();
    let name = text_field("name"@, "Battery SOC Calibrating"@);
    let off = text_field("payload_off"@, "OFF"@);
    let on = text_field("payload_on"@, "ON"@);
    let place = text_field("state_topic"@, topic(prefix, SOC_CALIBRATING@));
    let unique = text_field("unique_id"@, "zendure_"@ + SOC_CALIBRATING@);
    let end = "}"@;
    let l1 = l0 + name;
    let l2 = l1 + off;
    let l3 = l2 + on;
    let l4 = l3 + place;
    let l5 = l4 + unique;
    assert(binary_announcement(prefix).payload == l5 + end);
    let key = "name"@;
    let kept = "Battery SOC Calibrating"@;
    a_field_is_there(l0, key, kept);
    a_field_stays(l1, key, kept, off);
    a_field_stays(l2, key, kept, on);
    a_field_stays(l3, key, kept, place);
    a_field_stays(l4, key, kept, unique);
    a_field_stays(l5, key, kept, end);
    let key = "payload_off"@;
    let kept = "OFF"@;
    a_field_is_there(l1, key, kept);
    a_field_stays(l2, key, kept, on);
    a_field_stays(l3, key, kept, place);
    a_field_stays(l4, key, kept, unique);
    a_field_stays(l5, key, kept, end);
    let key = "payload_on"@;
    let kept = "ON"@;
    a_field_is_there(l2, key, kept);
    a_field_stays(l3, key, kept, place);
    a_field_stays(l4, key, kept, unique);
    a_field_stays(l5, key, kept, end);
    let key = "state_topic"@;
    let kept = topic(prefix, SOC_CALIBRATING@);
    a_field_is_there(l3, key, kept);
    a_field_stays(l4, key, kept, unique);
    a_field_stays(l5, key, kept, end);
    let key = "unique_id"@;
    let kept = "zendure_"@ + SOC_CALIBRATING@;
    a_field_is_there(l4, key, kept);
    a_field_stays(l5, key, kept, end);
}

/// A pack is called by its number, and its temperature is in degrees.
pub proof fn a_pack_is_called_by_its_number(index: int)
    ensures
        pack_gauge(index).id == "pack"@ + decimal(index as nat) + "_temp"@,
        pack_gauge(index).name == "Battery Pack "@ + decimal(index as nat) + " Temperature"@,
        pack_gauge(index).unit == "°C"@,
        pack_gauge(index).device_class == Some("temperature"@),
{
}

/// Of each pack its document is told first, where it was due, and then its temperature; the
/// packs in their order, and the enclosure last.
pub proof fn each_pack_is_told_of_in_its_turn(
    prefix: Seq<char>,
    packs: Seq<PackTemperature>,
    answers: Seq<PackAnswer>,
    n: int,
)
    requires
        0 < n <= packs.len() == answers.len(),
    ensures
        ({
            let before = packs_told_after(prefix, packs, answers, n - 1);
            let after = packs_told_after(prefix, packs, answers, n);
            let value = Sent {
                notice: pack_reading(prefix, packs[n - 1]),
                answer: answers[n - 1].published,
            };
            &&& answers[n - 1].announced is None ==> after == before.push(value)
            &&& answers[n - 1].announced matches Some(answer) ==> after == before.push(
                Sent {
                    notice: announcement(prefix, pack_gauge(packs[n - 1].index as int)),
                    answer,
                },
            ).push(value)
        }),
        packs_told_after(prefix, packs, answers, 0).len() == 0,
{
    let before = packs_told_after(prefix, packs, answers, n - 1);
    let after = packs_told_after(prefix, packs, answers, n);
    let value = Sent {
        notice: pack_reading(prefix, packs[n - 1]),
        answer: answers[n - 1].published,
    };
    match answers[n - 1].announced {
        None => {
            assert(after =~= before.push(value));
        },
        Some(answer) => {
            assert(after =~= before.push(
                Sent {
                    notice: announcement(prefix, pack_gauge(packs[n - 1].index as int)),
                    answer,
                },
            ).push(value));
        },
    }
}

} // verus!
