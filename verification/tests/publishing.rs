//! What goes out to the broker, and when it is announced.

use std::collections::BTreeSet;

use zendure::announce::Announcer;
use zendure::backpressure::tally;
use zendure::device::PackTemperature;
use zendure::models::{ControlDecision, ControlMode, CycleCounts};
use zendure::mqtt::discovery::{
    calibrating_discovery, publish_battery_power, publish_battery_soc, publish_cycle_counts,
    publish_decision, publish_ha_discovery, publish_rte, publish_soc_calibrating, publish_status,
    publish_temperatures, sensor_discovery, sensors,
};
use zendure::mqtt::publisher::{Attempt, Losses, Refused, Report};
use zendure::mqtt::subscriber::{Incoming, Response, Subscriber};
use zendure::publish::{Accepted, Delivery, Message, NullPublisher, Publisher, QoS};
use zendure::saving::{note_save, Level, Save};
use zendure::units::{DeciKelvin, GridPower, KiloWattHours, Percent, Setpoint, Soc, Watts};

/// Keeps what it was handed; with `refusing`, it keeps the attempt and refuses.
struct RecordingPublisher {
    sent: Vec<Message>,
    refusing: bool,
}

impl RecordingPublisher {
    fn new() -> Self {
        RecordingPublisher { sent: Vec::new(), refusing: false }
    }

    fn refusing() -> Self {
        RecordingPublisher { sent: Vec::new(), refusing: true }
    }

    fn sent(&self) -> Vec<Message> {
        self.sent.clone()
    }

    fn payload(&self, topic: &str) -> Option<String> {
        self.sent().iter().rev().find(|m| m.topic == topic).map(|m| m.payload.clone())
    }
}

impl Publisher for RecordingPublisher {
    fn publish(&mut self, message: Message) -> Accepted {
        self.sent.push(message);
        if self.refusing {
            Accepted::Dropped
        } else {
            Accepted::Queued
        }
    }
}

fn telemetry(publisher: &RecordingPublisher) -> Vec<(String, String)> {
    publisher
        .sent()
        .into_iter()
        .filter(|m| m.delivery == Delivery::Telemetry)
        .map(|m| (m.topic, m.payload))
        .collect()
}

fn sample() -> ControlDecision {
    ControlDecision {
        mode: ControlMode::Discharge,
        power_watts: Setpoint::new(145),
        reason: "Grid demand".to_string(),
        grid_power: GridPower { mw: 150_500 },
    }
}

fn doc(id: &str) -> Message {
    Message::discovery(format!("homeassistant/sensor/{id}/config"), "{}".to_string())
}

// --- announcing ------------------------------------------------------------

#[test]
fn an_id_is_announced_once_per_connection() {
    let mut p = RecordingPublisher::new();
    let mut a = Announcer::new();

    for _ in 0..5 {
        a.announce(&mut p, "battery_soc", || doc("battery_soc"));
    }

    assert_eq!(p.sent().len(), 1);
}

#[test]
fn a_reset_announces_everything_again() {
    let mut p = RecordingPublisher::new();
    let mut a = Announcer::new();

    a.announce(&mut p, "battery_soc", || doc("battery_soc"));
    a.reset();
    a.announce(&mut p, "battery_soc", || doc("battery_soc"));

    assert_eq!(p.sent().len(), 2);
    assert_eq!(a.count(), 1, "the second one is announced again, not twice");
}

#[test]
fn an_already_announced_id_does_not_build_its_document() {
    let mut p = RecordingPublisher::new();
    let mut a = Announcer::new();
    let mut built = 0;

    for _ in 0..5 {
        a.announce(&mut p, "battery_soc", || {
            built += 1;
            doc("battery_soc")
        });
    }

    assert_eq!(built, 1);
}

/// A document the sink refused has not reached the broker.
#[test]
fn a_refused_document_is_offered_again() {
    let mut p = RecordingPublisher::refusing();
    let mut a = Announcer::new();

    a.announce(&mut p, "battery_soc", || doc("battery_soc"));
    a.announce(&mut p, "battery_soc", || doc("battery_soc"));

    assert_eq!(p.sent().len(), 2, "refused is not announced");
    assert_eq!(a.count(), 0);
}

#[test]
fn an_answer_decides_what_is_published_next() {
    let mut refuses = RecordingPublisher::refusing();
    let mut takes = RecordingPublisher::new();
    let mut a = Announcer::new();
    assert_eq!(a.announce(&mut refuses, "x", || doc("x")), Some(Accepted::Dropped));
    assert_eq!(a.announce(&mut refuses, "x", || doc("x")), Some(Accepted::Dropped));
    assert_eq!(a.announce(&mut takes, "x", || doc("x")), Some(Accepted::Queued));
    assert_eq!(a.announce(&mut takes, "x", || doc("x")), None);
    assert_eq!(a.announce(&mut refuses, "x", || doc("x")), None);
    assert_eq!(a.announce(&mut NullPublisher::new(), "y", || doc("y")), Some(Accepted::Queued));
    assert_eq!(a.count(), 2);
    a.reset();
    assert_eq!(a.count(), 0);
    assert_eq!(a.announce(&mut takes, "x", || doc("x")), Some(Accepted::Queued));
    assert_eq!(a.announce(&mut takes, "x", || doc("x")), None);
    assert_eq!(a.count(), 1);

    assert_eq!(refuses.sent().len(), 2);
    let topics: Vec<String> = takes.sent().into_iter().map(|m| m.topic).collect();
    assert_eq!(topics, vec!["homeassistant/sensor/x/config"; 2]);
}

// --- saving ----------------------------------------------------------------

#[test]
fn an_outage_warns_once() {
    let history = [
        (Save::Done, None),
        (Save::Unwritten, Some(Level::Warn)),
        (Save::Unwritten, Some(Level::Debug)),
        (Save::Unserialized, Some(Level::Warn)),
        (Save::Unwritten, Some(Level::Debug)),
        (Save::Done, None),
        (Save::Unserialized, Some(Level::Warn)),
        (Save::Unwritten, Some(Level::Warn)),
        (Save::Unwritten, Some(Level::Debug)),
    ];
    let mut failing = false;
    for (save, expected) in history {
        let (level, next) = note_save(failing, save);
        assert_eq!(level, expected);
        failing = next;
    }
    assert!(failing);
}

// --- sinks -----------------------------------------------------------------

#[test]
fn delivery_maps_to_the_qos_and_retain_it_always_had() {
    assert_eq!(Delivery::Telemetry.qos(), QoS::AtMostOnce);
    assert!(!Delivery::Telemetry.retain());

    assert_eq!(Delivery::Discovery.qos(), QoS::AtLeastOnce);
    assert!(Delivery::Discovery.retain());
}

#[test]
fn the_null_publisher_reports_every_message_queued() {
    let mut publisher = NullPublisher::new();
    assert_eq!(
        publisher.publish(Message::telemetry("x".to_string(), "1".to_string())),
        Accepted::Queued,
    );
    assert_eq!(
        publisher.publish(Message::discovery("y".to_string(), "{}".to_string())),
        Accepted::Queued,
    );
    assert!(Delivery::Discovery.retain());
}

#[test]
fn reports_on_powers_of_two_and_stays_quiet_between() {
    let mut counter: u64 = 0;
    let mut reported = Vec::new();

    for _ in 0..16 {
        if let Some(n) = tally(&mut counter) {
            reported.push(n);
        }
    }

    assert_eq!(reported, vec![1, 2, 4, 8, 16]);
    assert_eq!(counter, 16);
}

#[test]
fn a_full_queue_is_counted_as_dropped() {
    let mut losses = Losses::none();
    assert!(!losses.any());
    assert_eq!(losses.publish(Attempt::Taken), (Accepted::Queued, Report::Nothing));
    assert!(!losses.any());
    let full = Attempt::Refused(Refused::QueueFull);
    assert_eq!(losses.publish(full), (Accepted::Dropped, Report::Dropping(1)));
    assert_eq!(losses.publish(full), (Accepted::Dropped, Report::Dropping(2)));
    assert_eq!(losses.publish(full), (Accepted::Dropped, Report::Nothing));
    assert_eq!(losses.publish(full), (Accepted::Dropped, Report::Dropping(4)));
    assert_eq!(losses.dropped, 4);
    assert!(losses.any());
}

/// A task that is gone is a different condition from a full queue.
#[test]
fn a_vanished_sink_is_told_once_and_is_no_full_queue() {
    let mut losses = Losses::none();
    let gone = Attempt::Refused(Refused::SinkGone);
    assert_eq!(losses.publish(gone), (Accepted::Dropped, Report::SinkGone));
    assert_eq!(losses.publish(gone), (Accepted::Dropped, Report::Nothing));
    assert!(losses.sink_gone);
}

#[test]
fn a_publish_while_shutting_down_is_not_a_vanished_sink() {
    let mut losses = Losses::none();
    let closing = Attempt::Refused(Refused::ShuttingDown);
    assert_eq!(losses.publish(closing), (Accepted::Dropped, Report::Nothing));
    assert!(!losses.sink_gone);
}

#[test]
fn a_failed_delivery_is_counted_apart() {
    let mut losses = Losses::none();
    assert_eq!(losses.delivery_failed(), Report::Failing(1));
    assert_eq!(losses.delivery_failed(), Report::Failing(2));
    assert_eq!(losses.delivery_failed(), Report::Nothing);
    assert_eq!((losses.dropped, losses.failed), (0, 3));
    assert!(losses.any());
}

// --- the meter's subscription ----------------------------------------------

#[test]
fn a_new_connection_announces_and_subscribes_again() {
    let quiet =
        Response { reset: false, reading: false, back_off: false, subscribe: false, announce: false };
    let mut s = Subscriber::new();
    assert!(!s.subscribed);

    let response = s.on(&Incoming::Connected, "meter");
    assert!(response.reset && response.subscribe);
    s.offered(true);
    assert!(s.subscribed);

    let response = s.on(&Incoming::Publish { topic: "meter".to_string() }, "meter");
    assert!(response.reading && !response.subscribe);
    let response = s.on(&Incoming::Publish { topic: "other".to_string() }, "meter");
    assert!(!response.reading);
    let response = s.on(&Incoming::Other, "meter");
    assert_eq!(Response { announce: false, ..response }, quiet);

    let response = s.on(&Incoming::Failed, "meter");
    assert!(response.back_off);

    let response = s.on(&Incoming::Connected, "meter");
    assert!(response.reset && response.subscribe);
    s.offered(false);
    assert!(!s.subscribed, "a refused subscription is tried again");
    assert!(s.on(&Incoming::Other, "meter").subscribe);
}

// --- what goes on the wire -------------------------------------------------

#[test]
fn mqtt_a_decision_publishes_four_values() {
    let mut p = RecordingPublisher::new();
    let decision = ControlDecision {
        mode: ControlMode::Charge,
        power_watts: Setpoint::new(1200),
        reason: "solar surplus".to_string(),
        grid_power: GridPower { mw: -1_250_500 },
    };
    publish_decision(&mut p, "zendure", &decision);

    assert_eq!(
        telemetry(&p),
        vec![
            ("zendure/decision_mode".to_string(), "charge".to_string()),
            ("zendure/decision_power".to_string(), "1200".to_string()),
            ("zendure/decision_reason".to_string(), "solar surplus".to_string()),
            // Rounded to whole watts, and the meter reports fractions.
            ("zendure/decision_grid_power".to_string(), "-1250".to_string()),
        ],
    );
}

#[test]
fn discovery_a_decision_publishes_four_values() {
    let mut p = RecordingPublisher::new();
    let decision = ControlDecision {
        mode: ControlMode::Charge,
        power_watts: Setpoint::new(1200),
        ..sample()
    };
    publish_decision(&mut p, "zendure", &decision);

    assert_eq!(
        telemetry(&p),
        vec![
            ("zendure/decision_mode".to_string(), "charge".to_string()),
            ("zendure/decision_power".to_string(), "1200".to_string()),
            ("zendure/decision_reason".to_string(), "Grid demand".to_string()),
            ("zendure/decision_grid_power".to_string(), "150".to_string()),
        ],
    );
}

fn rte_without_a_figure() {
    let mut p = RecordingPublisher::new();
    publish_rte(
        &mut p,
        "zendure",
        None,
        KiloWattHours { micro: Some(1_234_000) },
        KiloWattHours { micro: Some(3_840_000) },
    );

    assert_eq!(p.payload("zendure/rte_percent").unwrap(), "unknown");
    // Two decimals for energy, one for the efficiency.
    assert_eq!(p.payload("zendure/rte_usable_kwh").unwrap(), "1.23");
    assert_eq!(p.payload("zendure/rte_total_capacity_kwh").unwrap(), "3.84");
}

#[test]
fn mqtt_rte_says_unknown_rather_than_a_number_it_does_not_have() {
    rte_without_a_figure();
}

#[test]
fn discovery_rte_says_unknown_rather_than_a_number_it_does_not_have() {
    rte_without_a_figure();
}

fn rte_with_a_figure() {
    let mut p = RecordingPublisher::new();
    publish_rte(
        &mut p,
        "zendure",
        Some(Percent { micro: Some(85_234_568) }),
        KiloWattHours::zero(),
        KiloWattHours::zero(),
    );

    assert_eq!(p.payload("zendure/rte_percent").unwrap(), "85.2");
}

#[test]
fn mqtt_rte_publishes_one_decimal_when_it_has_a_figure() {
    rte_with_a_figure();
}

#[test]
fn discovery_rte_publishes_one_decimal_when_it_has_a_figure() {
    rte_with_a_figure();
}

#[test]
fn the_remaining_scalars_publish_the_strings_they_always_did() {
    let mut p = RecordingPublisher::new();
    publish_status(&mut p, "zendure", "mqtt_timeout");
    publish_battery_soc(&mut p, "zendure", Soc::new(81));
    publish_soc_calibrating(&mut p, "zendure", true);
    publish_soc_calibrating(&mut p, "zendure", false);
    publish_battery_power(&mut p, "zendure", Watts::from_device(1200), Watts::zero());
    publish_cycle_counts(
        &mut p,
        "zendure",
        &CycleCounts { daily_transitions: 7, daily_cooldown_suppressions: 2 },
    );

    assert_eq!(p.payload("zendure/controller_status").unwrap(), "mqtt_timeout");
    assert_eq!(p.payload("zendure/battery_soc").unwrap(), "81");
    // The last write wins, so this is the `false` call.
    assert_eq!(p.payload("zendure/soc_calibrating").unwrap(), "OFF");
    assert_eq!(p.payload("zendure/battery_charge_power").unwrap(), "1200");
    assert_eq!(p.payload("zendure/battery_discharge_power").unwrap(), "0");
    assert_eq!(p.payload("zendure/daily_cycles").unwrap(), "7");
    assert_eq!(p.payload("zendure/daily_cooldown_suppressions").unwrap(), "2");
}

#[test]
fn status_publishes_the_string_it_was_given() {
    let mut p = RecordingPublisher::new();
    publish_status(&mut p, "zendure", "mqtt_timeout");
    assert_eq!(p.payload("zendure/controller_status").unwrap(), "mqtt_timeout");
}

#[test]
fn soc_publishes_whole_percent() {
    let mut p = RecordingPublisher::new();
    publish_battery_soc(&mut p, "zendure", Soc::new(81));
    assert_eq!(p.payload("zendure/battery_soc").unwrap(), "81");
}

#[test]
fn soc_calibrating_publishes_on_and_off() {
    let mut p = RecordingPublisher::new();
    publish_soc_calibrating(&mut p, "zendure", true);
    assert_eq!(p.payload("zendure/soc_calibrating").unwrap(), "ON");

    publish_soc_calibrating(&mut p, "zendure", false);
    assert_eq!(p.payload("zendure/soc_calibrating").unwrap(), "OFF");
}

#[test]
fn battery_power_publishes_both_directions_separately() {
    let mut p = RecordingPublisher::new();
    publish_battery_power(&mut p, "zendure", Watts::from_device(1200), Watts::zero());
    assert_eq!(p.payload("zendure/battery_charge_power").unwrap(), "1200");
    assert_eq!(p.payload("zendure/battery_discharge_power").unwrap(), "0");
}

#[test]
fn cycle_counts_publish_both_counters() {
    let mut p = RecordingPublisher::new();
    publish_cycle_counts(
        &mut p,
        "zendure",
        &CycleCounts { daily_transitions: 7, daily_cooldown_suppressions: 2 },
    );
    assert_eq!(p.payload("zendure/daily_cycles").unwrap(), "7");
    assert_eq!(p.payload("zendure/daily_cooldown_suppressions").unwrap(), "2");
}

fn temperatures_in_celsius() {
    let mut p = RecordingPublisher::new();
    publish_temperatures(
        &mut p,
        &mut Announcer::new(),
        "zendure",
        Some(DeciKelvin { tenths: 3001 }),
        &[
            PackTemperature { index: 0, temp: DeciKelvin { tenths: 2981 } },
            PackTemperature { index: 1, temp: DeciKelvin { tenths: 2995 } },
        ],
    );

    assert_eq!(p.payload("zendure/enclosure_temp").unwrap(), "27.0");
    assert_eq!(p.payload("zendure/pack0_temp").unwrap(), "25.0");
    assert_eq!(p.payload("zendure/pack1_temp").unwrap(), "26.4");
}

/// Each reading lies half way between two tenths of a degree.
#[test]
fn temperatures_are_published_as_binary_numbers_are() {
    for tenths in (0..20_000).chain(4_294_960_000..=4_294_967_295) {
        assert_eq!(
            DeciKelvin { tenths }.celsius_text(),
            format!("{:.1}", f64::from(tenths) / 10.0 - 273.15),
            "{tenths}",
        );
    }
    assert_eq!(DeciKelvin { tenths: 2554 }.celsius_text(), "-17.7");
    assert_eq!(DeciKelvin { tenths: 2564 }.celsius_text(), "-16.8");
    assert_eq!(DeciKelvin { tenths: 2731 }.celsius_text(), "-0.0");
}

#[test]
fn mqtt_temperatures_convert_tenths_of_kelvin_to_one_decimal_of_celsius() {
    temperatures_in_celsius();
}

#[test]
fn discovery_temperatures_convert_tenths_of_kelvin_to_one_decimal_of_celsius() {
    temperatures_in_celsius();
}

#[test]
fn mqtt_discovery_documents_are_retained_and_telemetry_is_not() {
    let mut p = RecordingPublisher::new();
    publish_ha_discovery(&mut p, &mut Announcer::new(), "zendure");

    let sent = p.sent();
    assert!(sent.iter().all(|m| m.delivery == Delivery::Discovery));
    assert!(sent.iter().all(|m| m.topic.starts_with("homeassistant/")));
}

#[test]
fn discovery_discovery_documents_are_retained_and_telemetry_is_not() {
    let mut p = RecordingPublisher::new();
    publish_ha_discovery(&mut p, &mut Announcer::new(), "zendure");

    let sent = p.sent();
    assert!(sent.iter().all(|m| m.delivery.retain()));
    assert!(sent.iter().all(|m| m.delivery.qos() == QoS::AtLeastOnce));
    assert!(
        sent.iter().all(|m| m.topic.starts_with("homeassistant/")),
        "discovery lives under the homeassistant prefix, not the device's",
    );

    let soc = sent
        .iter()
        .find(|m| m.topic == "homeassistant/sensor/zendure_battery_soc/config")
        .expect("the SOC sensor is announced");
    let doc: serde_json::Value = serde_json::from_str(&soc.payload).unwrap();
    assert_eq!(doc["state_topic"], "zendure/battery_soc");
    assert_eq!(doc["unique_id"], "zendure_battery_soc");
    assert_eq!(doc["device_class"], "battery");
    assert_eq!(doc["state_class"], "measurement");
}

#[test]
fn every_sensor_is_announced_once_and_in_order() {
    let mut p = RecordingPublisher::new();
    let mut a = Announcer::new();
    let answers = publish_ha_discovery(&mut p, &mut a, "zendure");
    assert_eq!(answers, vec![Some(Accepted::Queued); 15]);
    assert_eq!(a.count(), 15);

    let topics: Vec<String> = p.sent().into_iter().map(|m| m.topic).collect();
    assert_eq!(topics.len(), 15);
    assert_eq!(topics[0], "homeassistant/sensor/zendure_decision_mode/config");
    assert_eq!(topics[13], "homeassistant/sensor/zendure_daily_cooldown_suppressions/config");
    assert_eq!(topics[14], "homeassistant/binary_sensor/zendure_soc_calibrating/config");

    assert_eq!(publish_ha_discovery(&mut p, &mut a, "zendure"), vec![None; 15]);
    assert_eq!(p.sent().len(), 15);
}

#[test]
fn announcing_again_repeats_what_was_refused() {
    let mut a = Announcer::new();
    a.announce(&mut NullPublisher::new(), "battery_soc", || doc("battery_soc"));

    let mut refuses = RecordingPublisher::refusing();
    let first = publish_ha_discovery(&mut refuses, &mut a, "zendure");
    assert_eq!(first.iter().filter(|answer| **answer == Some(Accepted::Dropped)).count(), 14);
    assert_eq!(first[8], None);
    assert_eq!(refuses.sent().len(), 14);

    let mut takes = RecordingPublisher::new();
    let second = publish_ha_discovery(&mut takes, &mut a, "zendure");
    assert_eq!(second.iter().filter(|answer| **answer == Some(Accepted::Queued)).count(), 14);
    assert_eq!(second[8], None);
    assert_eq!(takes.sent().len(), 14);
    assert!(takes.sent().iter().all(|m| !m.topic.contains("battery_soc")));
    assert_eq!(a.count(), 15);
}

#[test]
fn nothing_but_the_readings_is_published() {
    let mut p = RecordingPublisher::new();
    publish_rte(&mut p, "z", None, KiloWattHours::zero(), KiloWattHours::zero());
    publish_cycle_counts(
        &mut p,
        "z",
        &CycleCounts { daily_transitions: 7, daily_cooldown_suppressions: 2 },
    );
    publish_soc_calibrating(&mut p, "z", true);
    publish_battery_power(&mut p, "z", Watts::zero(), Watts::from_device(300));
    publish_status(&mut p, "z", "operational");
    publish_battery_soc(&mut p, "z", Soc::new(81));

    let sent = p.sent();
    let lines: Vec<(&str, &str)> =
        sent.iter().map(|m| (m.topic.as_str(), m.payload.as_str())).collect();
    assert_eq!(
        lines,
        vec![
            ("z/rte_percent", "unknown"),
            ("z/rte_usable_kwh", "0.00"),
            ("z/rte_total_capacity_kwh", "0.00"),
            ("z/daily_cycles", "7"),
            ("z/daily_cooldown_suppressions", "2"),
            ("z/soc_calibrating", "ON"),
            ("z/battery_charge_power", "0"),
            ("z/battery_discharge_power", "300"),
            ("z/controller_status", "operational"),
            ("z/battery_soc", "81"),
        ],
    );
}

#[test]
fn each_pack_is_announced_before_its_value_and_the_enclosure_comes_last() {
    let mut p = RecordingPublisher::new();
    let mut a = Announcer::new();
    let packs = [
        PackTemperature { index: 0, temp: DeciKelvin { tenths: 2981 } },
        PackTemperature { index: 1, temp: DeciKelvin { tenths: 2995 } },
    ];
    let enclosure = Some(DeciKelvin { tenths: 3001 });
    let (answers, last) = publish_temperatures(&mut p, &mut a, "zendure", enclosure, &packs);
    assert!(answers.iter().all(|answer| answer.announced == Some(Accepted::Queued)));
    assert_eq!(last, Some(Accepted::Queued));

    let topics: Vec<String> = p.sent().into_iter().map(|m| m.topic).collect();
    assert_eq!(
        topics,
        vec![
            "homeassistant/sensor/zendure_pack0_temp/config",
            "zendure/pack0_temp",
            "homeassistant/sensor/zendure_pack1_temp/config",
            "zendure/pack1_temp",
            "zendure/enclosure_temp",
        ],
    );
}

/// Every announced sensor gets values, and every value has a sensor.
#[test]
fn every_announced_sensor_is_published_and_the_reverse() {
    let mut announced = RecordingPublisher::new();
    publish_ha_discovery(&mut announced, &mut Announcer::new(), "zendure");

    let announced: BTreeSet<String> = announced
        .sent()
        .iter()
        .map(|m| {
            let doc: serde_json::Value = serde_json::from_str(&m.payload).unwrap();
            doc["state_topic"].as_str().unwrap().to_string()
        })
        .collect();

    let mut p = RecordingPublisher::new();
    publish_decision(&mut p, "zendure", &sample());
    publish_cycle_counts(
        &mut p,
        "zendure",
        &CycleCounts { daily_transitions: 0, daily_cooldown_suppressions: 0 },
    );
    publish_rte(&mut p, "zendure", None, KiloWattHours::zero(), KiloWattHours::zero());
    publish_soc_calibrating(&mut p, "zendure", false);
    publish_battery_power(&mut p, "zendure", Watts::zero(), Watts::zero());
    publish_status(&mut p, "zendure", "operational");
    publish_battery_soc(&mut p, "zendure", Soc::zero());
    // Enclosure only: pack sensors come and go with the packs.
    publish_temperatures(
        &mut p,
        &mut Announcer::new(),
        "zendure",
        Some(DeciKelvin { tenths: 3001 }),
        &[],
    );

    let published: BTreeSet<String> = p
        .sent()
        .iter()
        .filter(|m| m.delivery == Delivery::Telemetry)
        .map(|m| m.topic.clone())
        .collect();

    assert_eq!(announced, published);
}

#[test]
fn a_pack_sensor_is_announced_before_its_first_value() {
    let mut p = RecordingPublisher::new();
    let mut a = Announcer::new();
    let packs = [PackTemperature { index: 3, temp: DeciKelvin { tenths: 2000 } }];
    publish_temperatures(&mut p, &mut a, "zendure", None, &packs);
    publish_temperatures(&mut p, &mut a, "zendure", None, &packs);

    let topics: Vec<String> = p.sent().into_iter().map(|m| m.topic).collect();
    assert_eq!(topics.len(), 3, "{topics:?}");
    assert!(topics[0].starts_with("homeassistant/sensor/zendure_pack3_temp"), "{topics:?}");
    assert_eq!(topics[1], "zendure/pack3_temp");
    assert_eq!(p.payload("zendure/pack3_temp").unwrap(), "-73.1");
}

#[test]
fn a_document_is_json_with_what_home_assistant_reads() {
    let message = sensor_discovery("zendure", "x\"y", "A \"name\"", "W", None);
    let doc: serde_json::Value = serde_json::from_str(&message.payload).unwrap();
    assert_eq!(doc["name"], "A \"name\"");
    assert_eq!(doc["unit_of_measurement"], "W");
    assert!(doc["device_class"].is_null());
    assert_eq!(doc["state_topic"], "zendure/x\"y");

    let calibrating = calibrating_discovery("zendure");
    let doc: serde_json::Value = serde_json::from_str(&calibrating.payload).unwrap();
    assert_eq!(doc["state_topic"], "zendure/soc_calibrating");
    assert_eq!(sensors().len(), 14);
}
