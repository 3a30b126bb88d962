//! One turn of the loop, a poll, and the way down.


use zendure::announce::Announcer;
use zendure::battery::BatteryState;
use zendure::clock::{Clock, Weekday};
use zendure::commands::{check_config, log_filter};
use zendure::config::{Config, SolarPhase};
use zendure::device::{
    Applied, BatteryReading, BatteryTelemetry, ControlPath, Outcome, PackTemperature, PollError,
    RawCapture,
};
use zendure::event::Event;
use zendure::models::ControlMode;
use zendure::mqtt::subscriber::{MeterObservation, MqttEvent};
use zendure::publish::{Accepted, Message, Publisher};
use zendure::rte::RteTracker;
use zendure::run::{
    capture, meter_feed, publisher_drained, seed_actual_solar, shut_down, status_for, Action, Coordinator, Drained,
    Heard, PollTelemetry, Produced, Stage, StopReason,
};
use zendure::units::{
    BatteryPower, DeciKelvin, GridPower, PowerCap, Soc, SolarPower, Timestamp, WattHours, Watts,
};
use zendure::world::{DeviceId, MeterReading};

const NOW_MS: i64 = 1_757_000_000_000;

struct RecordingPublisher {
    sent: Vec<Message>,
}

impl RecordingPublisher {
    fn new() -> Self {
        RecordingPublisher { sent: Vec::new() }
    }

    fn payload(&self, topic: &str) -> Option<String> {
        self.sent.iter().rev().find(|m| m.topic == topic).map(|m| m.payload.clone())
    }

    fn topics(&self) -> Vec<String> {
        self.sent.iter().map(|m| m.topic.clone()).collect()
    }
}

impl Publisher for RecordingPublisher {
    fn publish(&mut self, message: Message) -> Accepted {
        self.sent.push(message);
        Accepted::Queued
    }
}

fn config_text() -> &'static str {
    r#"
        [mqtt]
        host = "127.0.0.1"
        [[device]]
        kind = "zendure"
        ip = "192.168.1.253"
        sn = "SN123"
        poll_interval_secs = 10
        [shelly]
        topic = "shelly/em:0"
        solar_phase = "C"
        [tuning]
        mqtt_timeout_secs = 60
    "#
}

fn config() -> Config {
    Config::from_toml_str(config_text()).unwrap().0
}

fn at(secs: i64) -> Timestamp {
    Timestamp::from_millis(NOW_MS + secs * 1000)
}

fn clock(secs: i64) -> Clock {
    Clock { now: at(secs), hour: 12, day_ordinal: 100, weekday: Weekday::Wed }
}

fn battery() -> BatteryState {
    BatteryState {
        soc: Soc::new(50),
        max_discharge_power: PowerCap::new(800),
        max_charge_power: PowerCap::new(2400),
        current_power: BatteryPower::zero(),
        soc_calibrating: false,
        soc_limit_reached: false,
        fault: false,
    }
}

fn coordinator() -> Coordinator {
    Coordinator::start(&config(), DeviceId::new("SN123"), &clock(0), at(0))
}

fn metered(watts: i64) -> MqttEvent {
    MqttEvent::Meter(MeterObservation {
        grid: MeterReading::total_only(GridPower { mw: watts * 1000 }),
        solar: SolarPower::zero(),
    })
}

fn outcome(applied: Applied) -> Outcome {
    Outcome {
        device: DeviceId::new("SN123"),
        command: "set_idle".to_string(),
        applied,
        error: None,
    }
}

#[test]
fn a_stop_reason_renders_the_signal_name() {
    assert_eq!(StopReason::Sigterm.to_string(), "SIGTERM");
    assert_eq!(StopReason::Sigint.to_string(), "SIGINT");
}

#[test]
fn a_reading_moves_the_deadline_and_is_decided_on() {
    let mut c = coordinator();
    assert_eq!(c.deadline, at(60));
    let seen = c.observed(clock(0), battery());
    assert!(c.fold(&seen).step.decision.is_none());

    let event = c.metered(clock(10), metered(-500), at(10));
    assert_eq!(c.deadline, at(70));
    let turn = c.fold(&event);
    assert_eq!(turn.step.decision.unwrap().mode, ControlMode::Charge);
    assert_eq!(turn.path, ControlPath::Objective);
    assert_eq!(turn.status, None);
    assert!(!turn.went_silent);
}

#[test]
fn a_silence_is_the_failsafes_and_is_told_once() {
    let mut c = coordinator();
    let seen = c.observed(clock(0), battery());
    c.fold(&seen);
    let silence = c.silent(clock(60), at(60));
    assert_eq!(silence, Event::MqttTimeout { at: clock(60) });
    assert_eq!(c.deadline, at(120));
    let turn = c.fold(&silence);
    assert_eq!(turn.path, ControlPath::Failsafe);
    assert!(turn.went_silent);

    let again = c.silent(clock(120), at(120));
    assert!(!c.fold(&again).went_silent);

    let back = c.metered(clock(130), metered(0), at(130));
    assert_eq!(c.fold(&back).status, Some("operational"));
}

#[test]
fn a_coordinator_starts_knowing_nothing() {
    let state = coordinator().engine.state();
    assert_eq!(state.world.grid(), MeterReading::total_only(GridPower::zero()));
    assert_eq!(state.world.solar(), SolarPower::zero());
}

#[test]
fn a_status_is_the_worst_of_the_outcomes() {
    let good = [outcome(Applied::Done), outcome(Applied::Done)];
    assert_eq!(status_for(ControlPath::Objective, &good), Some("operational"));
    assert_eq!(status_for(ControlPath::Failsafe, &good), Some("mqtt_timeout"));
    let bad = [outcome(Applied::Done), outcome(Applied::Error)];
    assert_eq!(status_for(ControlPath::Objective, &bad), Some("zendure_api_error"));
    assert_eq!(status_for(ControlPath::Failsafe, &bad), Some("mqtt_timeout_api_error"));
    assert_eq!(status_for(ControlPath::Objective, &[]), None);
}

#[test]
fn a_decision_is_reported_with_its_status_and_counts() {
    let mut c = coordinator();
    let seen = c.observed(clock(0), battery());
    c.fold(&seen);
    let event = c.metered(clock(10), metered(-500), at(10));
    let decision = c.fold(&event).step.decision.unwrap();
    let mut p = RecordingPublisher::new();
    c.report(&mut p, "zendure", ControlPath::Objective, &decision, &[outcome(Applied::Done)]);
    assert_eq!(p.payload("zendure/controller_status").unwrap(), "operational");
    assert_eq!(p.payload("zendure/decision_mode").unwrap(), "charge");
    assert_eq!(p.payload("zendure/daily_cycles").unwrap(), "1");
    assert_eq!(
        p.topics(),
        vec![
            "zendure/controller_status",
            "zendure/decision_mode",
            "zendure/decision_power",
            "zendure/decision_reason",
            "zendure/decision_grid_power",
            "zendure/daily_cycles",
            "zendure/daily_cooldown_suppressions",
        ],
    );

    // Nothing was sent anywhere, so there is no status to tell of.
    let mut quiet = RecordingPublisher::new();
    let (status, _, _) = c.report(&mut quiet, "zendure", ControlPath::Objective, &decision, &[]);
    assert_eq!(status, None);
    assert_eq!(quiet.sent.len(), 6);
}

fn reading(charge: i32) -> BatteryReading {
    BatteryReading {
        state: battery(),
        telemetry: BatteryTelemetry {
            charge: Watts { w: charge },
            discharge: Watts { w: 0 },
            pack_capacities: Some(vec![WattHours::from_wh(1920), WattHours::from_wh(1920)]),
            pack_temps: vec![PackTemperature { index: 0, temp: DeciKelvin { tenths: 2981 } }],
            enclosure_temp: Some(DeciKelvin { tenths: 3001 }),
            min_soc: Some(Soc::new(10)),
        },
        raw: None,
    }
}

#[test]
fn a_poll_is_recorded_and_published() {
    let mut telemetry = PollTelemetry::first(RteTracker::new(), reading(0).telemetry);
    assert_eq!(telemetry.pack_count(), 2);
    assert_eq!(telemetry.min_soc, Soc::new(10));

    let mut p = RecordingPublisher::new();
    let mut announcer = Announcer::new();
    let (figures, _) = telemetry.record_and_publish(
        &mut p,
        &mut announcer,
        "zendure",
        &reading(1200),
        at(10),
        at(10),
    );
    // 3840 Wh, 40% of them usable, 85% of those delivered.
    assert_eq!(figures.usable.micro, Some(1_305_600));
    assert_eq!(figures.capacity.micro, Some(3_840_000));
    assert_eq!(figures.rte, None);
    assert_eq!(telemetry.figures(Soc::new(50)).usable, figures.usable);
    assert_eq!(p.payload("zendure/battery_charge_power").unwrap(), "1200");
    assert_eq!(p.payload("zendure/battery_soc").unwrap(), "50");
    assert_eq!(p.payload("zendure/soc_calibrating").unwrap(), "OFF");
    assert_eq!(p.payload("zendure/pack0_temp").unwrap(), "25.0");
    assert_eq!(p.payload("zendure/enclosure_temp").unwrap(), "27.0");
    assert_eq!(p.payload("zendure/rte_usable_kwh").unwrap(), "1.31");
    assert_eq!(
        p.topics(),
        vec![
            "zendure/rte_percent",
            "zendure/rte_usable_kwh",
            "zendure/rte_total_capacity_kwh",
            "homeassistant/sensor/zendure_pack0_temp/config",
            "zendure/pack0_temp",
            "zendure/enclosure_temp",
            "zendure/soc_calibrating",
            "zendure/battery_soc",
            "zendure/battery_charge_power",
            "zendure/battery_discharge_power",
        ],
    );
}

#[test]
fn what_was_captured_is_kept_from_a_poll_of_either_outcome() {
    let raw = || Some(RawCapture { kind: "zendure_poll", body: "{".to_string() });
    let failed = Err(PollError { raw: raw(), error: "eof".to_string() });
    assert_eq!(capture(&failed).unwrap().body, "{");
    let good = Ok(BatteryReading { raw: raw(), ..reading(0) });
    assert_eq!(capture(&good).unwrap().kind, "zendure_poll");
    assert!(capture(&Ok(reading(0))).is_none());
}

#[test]
fn the_meter_feed_is_the_configured_one() {
    assert_eq!(meter_feed(&config()), ("shelly/em:0".to_string(), SolarPhase::C));
}

#[test]
fn the_way_down_is_in_stages() {
    assert_eq!(
        shut_down(true, true),
        vec![Stage::DrainPublisher, Stage::StopFeeders, Stage::ReleaseJournal, Stage::DrainJournal]
    );
    assert!(!shut_down(false, true).contains(&Stage::DrainPublisher));
    assert!(!shut_down(true, false).contains(&Stage::DrainJournal));
}

#[test]
fn a_drain_that_fails_is_told() {
    assert_eq!(publisher_drained(&Drained::Finished, 0, 0, 0), None);
    assert_eq!(
        publisher_drained(&Drained::EndedEarly("panicked".to_string()), 0, 4, 0).unwrap(),
        "MQTT delivery task ended early (panicked) — 4 messages dropped this session"
    );
    assert_eq!(
        publisher_drained(&Drained::TimedOut, 3, 4, 5).unwrap(),
        "MQTT drain did not finish in 2s — 3 messages were queued when it began, 4 dropped and 5 failed this session"
    );
}

#[test]
fn a_strict_look_complains_of_every_warning() {
    let checked = check_config(config_text(), "c.toml").unwrap();
    assert_eq!(checked.warnings, Vec::<String>::new());
    assert_eq!(checked.verdict, Ok(()));
    assert!(checked.shown.contains("SN123"), "{}", checked.shown);

    let typo = format!("{}\nmni_soc = 5\n", config_text());
    let checked = check_config(&typo, "c.toml").unwrap();
    assert_eq!(checked.verdict.unwrap_err(), "1 warning(s) in c.toml; see above");

    assert!(check_config("nonsense", "c.toml").is_err());
}

#[test]
fn the_environment_has_the_say_over_the_log() {
    assert_eq!(log_filter(None, &config()), "zendure=info");
    assert_eq!(log_filter(Some("  ".to_string()), &config()), "zendure=info");
    assert_eq!(log_filter(Some("debug".to_string()), &config()), "debug");
}

/// What each action is, without what it carries.
fn kinds(actions: &[Action]) -> Vec<&'static str> {
    actions
        .iter()
        .map(|action| match action {
            Action::Capture(_) => "capture",
            Action::Record(_) => "record",
            Action::Announce(_) => "announce",
            Action::WarnOfSilence => "warn of silence",
            Action::WarnOfPoll(_) => "warn of poll",
            Action::Measure(_) => "measure",
            Action::Carry { .. } => "carry",
            Action::Leave(_) => "leave",
        })
        .collect()
}

#[test]
fn a_poll_is_captured_measured_and_recorded_and_commands_nothing() {
    let mut c = coordinator();
    let raw = || Some(RawCapture { kind: "zendure_poll", body: "{}".to_string() });
    let polled = Ok(BatteryReading { raw: raw(), ..reading(0) });
    let actions = c.hear(Heard::Polled(polled), clock(5), at(5));
    assert_eq!(kinds(&actions), vec!["capture", "measure", "record"]);
    assert_eq!(c.engine.battery(), Some(battery()));
    assert_eq!(c.deadline, at(60), "a poll says nothing of the meter");

    let failed = Err(PollError { raw: raw(), error: "eof".to_string() });
    let actions = c.hear(Heard::Polled(failed), clock(6), at(6));
    assert_eq!(kinds(&actions), vec!["capture", "warn of poll"]);
    let failed = Err(PollError { raw: None, error: "unreachable".to_string() });
    let actions = c.hear(Heard::Polled(failed), clock(7), at(7));
    assert!(matches!(&actions[..], [Action::WarnOfPoll(e)] if e == "unreachable"));
}

#[test]
fn a_reading_is_recorded_before_what_it_leads_to() {
    let mut c = coordinator();
    c.hear(Heard::Polled(Ok(reading(0))), clock(5), at(5));
    let actions = c.hear(Heard::Fed(metered(-500)), clock(10), at(10));
    assert_eq!(kinds(&actions), vec!["record", "carry"]);
    let Action::Carry { path, decision, directives, at: when } = &actions[1] else {
        panic!("the decision is carried out");
    };
    assert_eq!(*path, ControlPath::Objective);
    assert_eq!(decision.mode, ControlMode::Charge);
    assert_eq!(directives.len(), 1);
    assert_eq!(*when, at(10));
    assert_eq!(c.deadline, at(70));
}

#[test]
fn a_silence_is_recorded_warned_of_once_and_idled_each_time() {
    let mut c = coordinator();
    c.hear(Heard::Polled(Ok(reading(0))), clock(5), at(5));
    let first = c.hear(Heard::Silence, clock(60), at(60));
    assert_eq!(kinds(&first), vec!["record", "warn of silence", "carry"]);
    let second = c.hear(Heard::Silence, clock(120), at(120));
    assert_eq!(kinds(&second), vec!["record", "carry"]);
    assert_eq!(c.deadline, at(180));
    let back = c.hear(Heard::Fed(metered(0)), clock(130), at(130));
    assert_eq!(kinds(&back)[..2], ["record", "announce"]);
}

#[test]
fn a_stop_leaves_the_loop() {
    let mut c = coordinator();
    let actions = c.hear(Heard::Stop(StopReason::Sigterm), clock(1), at(1));
    assert!(matches!(actions[..], [Action::Leave(Some(StopReason::Sigterm))]));
    let actions = c.hear(Heard::FeedersGone, clock(1), at(1));
    assert!(matches!(actions[..], [Action::Leave(None)]));
}

/// Half past eleven in the evening in UTC is the next day in Amsterdam.
#[test]
fn a_dashboard_starts_with_the_days_sun() {
    let rows = vec![
        (1_789_300_800_000, SolarPower { mw: 250_000 }),
        (1_789_342_200_000, SolarPower::zero()),
    ];
    let history = seed_actual_solar(&rows, "Europe/Amsterdam");
    assert_eq!(
        history,
        vec![
            Produced {
                at: Timestamp::from_millis(1_789_300_800_000),
                day_ordinal: 256,
                solar: SolarPower { mw: 250_000 },
            },
            Produced {
                at: Timestamp::from_millis(1_789_342_200_000),
                day_ordinal: 257,
                solar: SolarPower::zero(),
            },
        ]
    );
    assert!(seed_actual_solar(&rows, "Mars/Olympus").is_empty());
}
