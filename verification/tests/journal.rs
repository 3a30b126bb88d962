//! Rows of the journal: what is written, and what is made of them.

use zendure::battery::BatteryState;
use zendure::clock::{Clock, Weekday};
use zendure::config::SessionConfig;
use zendure::controller::Controller;
use zendure::device::{Applied, ControlPath, Outcome};
use zendure::engine::{Engine, EngineState};
use zendure::event::Event;
use zendure::journal::{
    assemble, check_readable, check_writable, decision_records, event_record, meter_solar, pair,
    prune, raw_record, recent_decisions, session_row, Anchor, DecisionKind, DecisionTuple,
    EventRow, Field, ReadError, Record, RecordedFrame, Sequencer, SessionRow, SCHEMA_VERSION,
};
use zendure::models::{ControlDecision, ControlMode};
use zendure::units::{
    BatteryPower, Duration, GridPower, PowerCap, PowerMargin, RetentionDays, Setpoint, Soc,
    SolarPower, Timestamp,
};
use zendure::world::{DeviceId, Measurement, MeterReading, World};

const NOW_MS: i64 = 1_757_000_000_000;

fn clock_at(secs: i64) -> Clock {
    Clock {
        now: Timestamp::from_millis(NOW_MS + secs * 1000),
        hour: 12,
        day_ordinal: 100,
        weekday: Weekday::Wed,
    }
}

fn timeout(secs: i64) -> Event {
    Event::MqttTimeout { at: clock_at(secs) }
}

fn meter(secs: i64, watts: i64, solar: i64) -> Event {
    Event::Meter {
        at: clock_at(secs),
        grid: MeterReading::total_only(GridPower { mw: watts * 1000 }),
        solar: SolarPower { mw: solar * 1000 },
    }
}

fn battery() -> BatteryState {
    BatteryState {
        soc: Soc::new(50),
        max_discharge_power: PowerCap::new(800),
        max_charge_power: PowerCap::new(2400),
        current_power: BatteryPower { w: -300 },
        soc_calibrating: false,
        soc_limit_reached: false,
        fault: false,
    }
}

fn tuning() -> SessionConfig {
    SessionConfig {
        charge_margin: PowerMargin::new(50),
        discharge_margin: PowerMargin::new(5),
        charge_start_threshold: GridPower { mw: -100_000 },
        discharge_start_threshold: GridPower { mw: 0 },
        min_mode_duration_secs: 10,
        min_decision_interval_secs: 0,
        idle_timeout_secs: 300,
        min_idle_before_discharge_secs: 300,
        cycle_warn_threshold: 200,
        min_soc: Soc::new(10),
        max_soc: Soc::new(100),
        balance_weekday: None,
        solar_discharge_block_threshold: SolarPower::zero(),
        mqtt_timeout_secs: 120,
    }
}

/// A house that draws 700 W while its battery takes 300 of them.
fn engine_state() -> EngineState {
    let mut world = World::new();
    world.observe_meter(
        MeterReading::total_only(GridPower { mw: 700_000 }),
        SolarPower::zero(),
    );
    world.observe_device(DeviceId::new("battery-a"), Measurement::Battery(battery()));
    Engine::new(
        Controller::from_session(&tuning(), &clock_at(0)),
        world,
        Duration::from_secs(120),
    )
    .state()
}

fn outcome(device: &str, applied: Applied, error: Option<&str>) -> Outcome {
    Outcome {
        device: DeviceId::new(device),
        command: "set_idle".to_string(),
        applied,
        error: error.map(str::to_string),
    }
}

fn commands(frame: &RecordedFrame) -> Vec<String> {
    frame
        .commands
        .iter()
        .map(|(device, command)| format!("{} {}", device.as_str(), command))
        .collect()
}

fn row(seq: i64, event: Event, session_id: i64) -> EventRow {
    EventRow { seq, event: Ok(event), session_id }
}

fn command(seq: i64, device: &str) -> DecisionTuple {
    (seq, Some(device.to_string()), Some("set_idle".to_string()))
}

// --- pairing ---------------------------------------------------------------

#[test]
fn pairing_assigns_every_decision_to_exactly_one_frame() {
    let events: Vec<(i64, Event)> = (0..5).map(|i| (i * 10, timeout(i))).collect();
    let decisions: Vec<(i64, Option<String>, Option<String>)> = (0..5)
        .map(|i| (i * 10 + 1, Some(format!("dev{i}")), Some("set_idle".to_string())))
        .collect();

    let frames = pair(events, &decisions);
    assert_eq!(frames.len(), 5);
    for (i, frame) in frames.iter().enumerate() {
        assert_eq!(commands(frame), vec![format!("dev{i} set_idle")]);
    }
}

#[test]
fn a_decision_that_commanded_nothing_pairs_as_an_empty_list() {
    let events = vec![(1, timeout(0))];
    let frames = pair(events, &[(2, None, None)]);
    assert_eq!(frames.len(), 1);
    assert!(frames[0].commands.is_empty());
}

/// The numbers of events and decisions interleave with those of raw captures,
/// which are in neither list.
#[test]
fn a_raw_capture_between_an_event_and_its_decision_does_not_misalign_it() {
    let decisions = [command(2, "a"), command(4, "b")];
    let clean = pair(vec![(1, timeout(0)), (3, timeout(1))], &decisions);
    let shifted = [command(3, "a"), command(5, "b")];
    let interleaved = pair(vec![(1, timeout(0)), (4, timeout(1))], &shifted);

    let clean: Vec<Vec<String>> = clean.iter().map(commands).collect();
    let interleaved: Vec<Vec<String>> = interleaved.iter().map(commands).collect();
    assert_eq!(clean, interleaved);
    assert_eq!(clean, vec![vec!["a set_idle".to_string()], vec!["b set_idle".to_string()]]);
}

// --- a range ---------------------------------------------------------------

#[test]
fn a_restart_between_the_seed_and_the_events_is_reported() {
    let rows = vec![row(5, timeout(0), 2), row(7, timeout(1), 2)];
    let read = assemble(&rows, &[command(6, "a"), command(8, "a")], 8, Some(1));
    assert!(
        read.warnings.iter().any(|w| w.contains("spans a restart")),
        "{:?}",
        read.warnings
    );
    assert_eq!(read.session_id, Some(1));
    assert_eq!(read.frames.len(), 2);
}

#[test]
fn one_session_is_not_reported_as_a_restart() {
    let rows = vec![row(1, timeout(0), 3), row(3, timeout(1), 3)];
    let read = assemble(&rows, &[command(2, "a"), command(4, "a")], 4, None);
    assert_eq!(read.warnings, Vec::<String>::new());
    assert_eq!(read.session_id, Some(3));
}

#[test]
fn an_unreadable_event_is_skipped_loudly() {
    let rows = vec![
        row(1, timeout(0), 1),
        EventRow { seq: 2, event: Err("unknown variant".to_string()), session_id: 1 },
        row(4, timeout(1), 1),
    ];
    let read = assemble(&rows, &[command(3, "a"), command(5, "b")], 5, None);
    assert!(
        read.warnings.iter().any(|w| w.contains("unreadable event")),
        "{:?}",
        read.warnings
    );
    assert_eq!(read.frames.len(), 2);
    assert_eq!(commands(&read.frames[0]), vec!["a set_idle"]);
}

#[test]
fn the_newest_event_is_left_out_because_its_decision_may_not_exist_yet() {
    let rows = vec![row(1, timeout(0), 1), row(3, timeout(1), 1)];
    let decided = assemble(&rows, &[command(2, "a"), command(4, "a")], 4, None);
    assert_eq!(decided.frames.len(), 2);

    let trailing = assemble(&rows, &[command(2, "a")], 3, None);
    assert!(
        trailing.warnings.iter().any(|w| w.contains("newest row")),
        "{:?}",
        trailing.warnings
    );
    assert_eq!(trailing.frames.len(), 1);
    assert_eq!(trailing.frames[0].event.at(), clock_at(0).now);
}

#[test]
fn an_empty_range_reads_back_empty_rather_than_erroring() {
    let read = assemble(&vec![], &[], 10, None);
    assert!(read.frames.is_empty());
    assert!(read.warnings.is_empty());
    assert_eq!(read.session_id, None);
}

#[test]
fn a_pruned_session_degrades_instead_of_failing() {
    let newest =
        || SessionRow { version: "2".to_string(), started_ms: 5, config_json: "{}".to_string() };
    let mut warnings = vec![];
    let stand_in = session_row(Some(1), None, Some(newest()), &mut warnings).unwrap();
    assert_eq!(stand_in, newest());
    assert!(warnings.iter().any(|w| w.contains("pruned")), "{warnings:?}");

    let mut warnings = vec![];
    let own = SessionRow { version: "1".to_string(), started_ms: 1, config_json: "x".to_string() };
    assert_eq!(
        session_row(Some(1), Some(own), Some(newest()), &mut warnings).unwrap().version,
        "1"
    );
    assert!(warnings.is_empty());
    assert_eq!(session_row(None, None, Some(newest()), &mut warnings).unwrap(), newest());
    assert!(warnings.is_empty());
    let none = session_row(None, None, None, &mut warnings).unwrap_err();
    assert!(matches!(none, ReadError::Schema(_)));
}

#[test]
fn a_range_opens_after_its_seed_or_at_its_start() {
    let from = Timestamp::from_millis(9);
    assert_eq!(Anchor::of(Some(4), from).clause(), ("seq > ?1", 4));
    assert_eq!(Anchor::of(None, from).clause(), ("ts_ms >= ?1", 9));
}

#[test]
fn read_tests_a_database_from_another_schema_version_is_refused() {
    let err = check_readable("journal.db", SCHEMA_VERSION + 1).unwrap_err();
    assert!(matches!(err, ReadError::Schema(_)), "{err:?}");
    assert!(err.to_string().contains("journal.db"), "{}", err.to_string());
    assert_eq!(check_readable("journal.db", SCHEMA_VERSION), Ok(()));
}

#[test]
fn mod_tests_a_database_from_another_schema_version_is_refused() {
    assert!(check_writable(SCHEMA_VERSION + 1).is_err());
    assert!(check_writable(SCHEMA_VERSION).is_ok());
    assert!(check_writable(0).is_ok());
}

#[test]
fn a_read_error_says_what_failed() {
    assert!(ReadError::Sql("locked".to_string()).to_string().contains("locked"));
    let decode = ReadError::Decode { what: "seed".to_string(), source: "bad".to_string() };
    let text = decode.to_string();
    assert!(text.contains("seed") && text.contains("bad"), "{text}");
}

// --- recent decisions, solar -----------------------------------------------

fn decided(reason: &str) -> ControlDecision {
    ControlDecision {
        mode: ControlMode::Discharge,
        power_watts: Setpoint::new(145),
        reason: reason.to_string(),
        grid_power: GridPower { mw: 150_500 },
    }
}

#[test]
fn recent_decisions_come_back_oldest_first() {
    let rows = (1..=4).rev().map(|n| (n * 1_000, Some(decided(&format!("d{n}"))))).collect();
    let (read, skipped) = recent_decisions(rows);
    let reasons: Vec<String> = read.iter().map(|r| r.decision.reason.clone()).collect();
    assert_eq!(reasons, vec!["d1", "d2", "d3", "d4"]);
    assert_eq!(read[0].at, Timestamp::from_millis(1_000));
    assert_eq!(skipped, 0);
}

#[test]
fn recent_decisions_skips_an_undecodable_row() {
    let rows = vec![(3_000, Some(decided("d3"))), (2_000, None), (1_000, Some(decided("d1")))];
    let (read, skipped) = recent_decisions(rows);
    let reasons: Vec<String> = read.iter().map(|r| r.decision.reason.clone()).collect();
    assert_eq!(reasons, vec!["d1", "d3"]);
    assert_eq!(skipped, 1);
}

#[test]
fn recent_decisions_of_a_journal_with_none_is_empty() {
    assert!(recent_decisions(vec![]).0.is_empty());
}

#[test]
fn only_meter_readings_carry_solar() {
    let rows = vec![
        (1, Some(meter(0, 100, 250))),
        (2, Some(timeout(0))),
        (3, None),
        (4, Some(meter(1, 100, 0))),
    ];
    let (read, skipped) = meter_solar(&rows);
    assert_eq!(read, vec![(1, SolarPower { mw: 250_000 }), (4, SolarPower::zero())]);
    assert_eq!(skipped, 1);
}

// --- writing ---------------------------------------------------------------

#[test]
fn mod_tests_raw_payloads_are_stored_verbatim() {
    let record = raw_record(
        "shelly",
        r#"{"total_act_power":150.5,"unmodelled":"kept"}"#,
        Timestamp::from_millis(5),
    );
    let Record::Event { at, kind, payload_json } = record else {
        panic!("a capture is an event's row");
    };
    assert_eq!(at, Timestamp::from_millis(5));
    assert_eq!(kind, "shelly");
    assert_eq!(payload_json, r#"{"total_act_power":150.5,"unmodelled":"kept"}"#);
}

#[test]
fn mod_tests_malformed_payloads_are_kept_as_a_string() {
    let record = raw_record("zendure_poll", r#"{"electricLevel": 4"#, Timestamp::from_millis(5));
    let Record::Event { payload_json, .. } = record else {
        panic!("a capture is an event's row");
    };
    assert_eq!(payload_json, r#""{\"electricLevel\": 4""#);
}

#[test]
fn mod_tests_a_decision_writes_one_row_per_device() {
    let rows = decision_records(
        clock_at(0).now,
        ControlPath::Objective,
        &engine_state(),
        "{}",
        "[]",
        &[
            outcome("battery-a", Applied::Done, None),
            outcome("battery-b", Applied::Error, Some("timed out")),
        ],
    );
    assert_eq!(rows.len(), 2);
    assert_eq!(rows[0].device.as_deref(), Some("battery-a"));
    assert_eq!(rows[0].outcome, Some("ok"));
    assert_eq!(rows[0].error, None);
    assert_eq!(rows[1].device.as_deref(), Some("battery-b"));
    assert_eq!(rows[1].outcome, Some("error"));
    assert_eq!(rows[1].error.as_deref(), Some("timed out"));
    assert!(rows.iter().all(|r| r.kind == "decision"));
    // 700 W from the grid, 300 of which the battery takes.
    assert!(rows.iter().all(|r| r.pre_battery_net == GridPower { mw: 400_000 }));
}

#[test]
fn mod_tests_a_decision_that_commanded_nothing_still_gets_a_row() {
    let rows = decision_records(
        clock_at(0).now,
        ControlPath::Failsafe,
        &engine_state(),
        "{}",
        "[]",
        &[],
    );
    assert_eq!(rows.len(), 1);
    assert_eq!(rows[0].kind, "failsafe");
    assert_eq!(rows[0].device, None);
    assert_eq!(rows[0].command, None);
    assert_eq!(rows[0].outcome, None);
}

#[test]
fn a_decision_carries_its_events_timestamp() {
    let event = timeout(7);
    let Record::Event { at, kind, .. } = event_record(&event, "{}".to_string()) else {
        panic!("an event is an event's row");
    };
    let rows =
        decision_records(event.at(), ControlPath::Failsafe, &engine_state(), "{}", "[]", &[]);
    assert_eq!(at, rows[0].at);
    assert_eq!(kind, "mqtt_timeout");
}

#[test]
fn a_row_has_a_value_for_each_column() {
    let event = zendure::journal::write(3, 9, &event_record(&timeout(0), "{}".to_string()));
    assert_eq!(event.table, "events");
    assert_eq!(event.columns.split(", ").count(), event.fields.len());
    assert_eq!(
        event.fields,
        vec![
            Field::Integer(3),
            Field::Integer(9),
            Field::Integer(NOW_MS),
            Field::Text("mqtt_timeout".to_string()),
            Field::Text("{}".to_string()),
        ]
    );

    let mut rows =
        decision_records(clock_at(0).now, ControlPath::Failsafe, &engine_state(), "{}", "[]", &[]);
    let decision = zendure::journal::write(3, 10, &Record::Decision(rows.remove(0)));
    assert_eq!(decision.table, "decisions");
    assert_eq!(decision.columns.split(", ").count(), decision.fields.len());
    assert_eq!(decision.fields[3], Field::Missing);
    assert_eq!(decision.fields[4], Field::Text("failsafe".to_string()));
    assert_eq!(decision.fields[10], Field::Power(400_000));
}

#[test]
fn seq_orders_events_and_decisions_against_each_other() {
    let mut sequencer = Sequencer::new(1, None, 20_000);
    let numbers: Vec<i64> = (0..4).map(|_| sequencer.take(20_000).seq).collect();
    assert_eq!(numbers, vec![1, 2, 3, 4]);
}

#[test]
fn seq_continues_across_sessions() {
    let mut sequencer = Sequencer::new(2, Some(41), 20_000);
    assert_eq!(sequencer.take(20_000).seq, 42);
}

#[test]
fn old_rows_go_once_a_day() {
    let mut sequencer = Sequencer::new(1, None, 20_000);
    let due: Vec<bool> =
        [20_000, 20_001, 20_001, 20_002].iter().map(|d| sequencer.take(*d).prune).collect();
    assert_eq!(due, vec![false, true, false, true]);
}

#[test]
fn failed_writes_are_reported_ever_more_rarely() {
    let mut sequencer = Sequencer::new(1, None, 0);
    let reports: Vec<Option<u64>> = (0..5).map(|_| sequencer.write_failed()).collect();
    assert_eq!(reports, vec![Some(1), Some(2), None, Some(4), None]);
    assert_eq!(sequencer.failed, 5);
}

#[test]
fn prune_spares_the_running_sessions_own_row() {
    let deletions =
        prune(RetentionDays::new(30).unwrap(), Timestamp::from_millis(40 * 86_400_000), 7);
    let tables: Vec<&str> = deletions.iter().map(|d| d.table).collect();
    assert_eq!(tables, vec!["events", "decisions", "sessions"]);
    assert!(deletions.iter().all(|d| d.before_ms == 10 * 86_400_000));
    assert_eq!(deletions[2].spare_id, Some(7));
    assert_eq!(deletions[0].spare_id, None);
}

#[test]
fn a_decisions_kind_is_its_paths() {
    assert_eq!(DecisionKind::Decision.as_str(), ControlPath::Objective.journal_kind());
    assert_eq!(DecisionKind::Failsafe.as_str(), ControlPath::Failsafe.journal_kind());
    assert_eq!(Applied::Done.as_str(), "ok");
    assert_eq!(Applied::Error.as_str(), "error");
}
