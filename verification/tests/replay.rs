//! Folding a recording again and comparing the outcome with what was recorded.

use zendure::allocate::{allocate, Directive};
use zendure::battery::BatteryState;
use zendure::clock::{Clock, Weekday};
use zendure::command::Command;
use zendure::config::SessionConfig;
use zendure::controller::Controller;
use zendure::engine::{Engine, EngineState};
use zendure::event::Event;
use zendure::journal::{pair, RecordedDecision, RecordedFrame, Recording, SeqEvent, Slice};
use zendure::knobs::apply_overrides;
use zendure::models::{ControlDecision, ControlMode};
use zendure::replay::{
    from_recording, from_slice, render, replay, run, slice_warnings, verify, Fixture, Frame, Seed,
    SessionMeta, FORMAT,
};
use zendure::units::{
    BatteryPower, Duration, GridPower, PowerCap, PowerMargin, Setpoint, Soc, SolarPower, Timestamp,
};
use zendure::world::{DeviceId, Measurement, MeterReading, World};

const NOW_MS: i64 = 1_757_000_000_000;
const BATTERY_ID: &str = "test-battery";

fn clock_at(secs: i64) -> Clock {
    Clock {
        now: Timestamp::from_millis(NOW_MS + secs * 1000),
        hour: 12,
        day_ordinal: 100,
        weekday: Weekday::Wed,
    }
}

fn battery() -> BatteryState {
    BatteryState {
        soc: Soc::new(50),
        max_discharge_power: PowerCap::new(800),
        max_charge_power: PowerCap::new(2400),
        current_power: BatteryPower::zero(),
        soc_calibrating: false,
        soc_limit_reached: false,
        fault: false,
    }
}

fn meter_at(secs: i64, watts: i64) -> Event {
    Event::Meter {
        at: clock_at(secs),
        grid: MeterReading::total_only(GridPower { mw: watts * 1000 }),
        solar: SolarPower::zero(),
    }
}

fn update_at(secs: i64, state: BatteryState) -> Event {
    Event::DeviceUpdate {
        at: clock_at(secs),
        id: DeviceId::new(BATTERY_ID),
        measurement: Measurement::Battery(state),
    }
}

/// A whole session: the battery's first state, then readings that swing across
/// both start thresholds with an outage in the middle.
fn session_events() -> Vec<Event> {
    vec![
        update_at(0, battery()),
        meter_at(0, -500),
        meter_at(20, -800),
        meter_at(40, 300),
        update_at(60, BatteryState { soc: Soc::new(81), ..battery() }),
        Event::MqttTimeout { at: clock_at(80) },
        meter_at(100, 250),
        meter_at(120, -600),
        meter_at(140, 400),
    ]
}

fn config() -> SessionConfig {
    SessionConfig {
        charge_margin: PowerMargin::new(50),
        discharge_margin: PowerMargin::new(5),
        charge_start_threshold: GridPower { mw: -100_000 },
        discharge_start_threshold: GridPower { mw: 0 },
        min_mode_duration_secs: 10,
        min_decision_interval_secs: 0,
        idle_timeout_secs: 300,
        min_idle_before_discharge_secs: 300,
        cycle_warn_threshold: 200,
        min_soc: Soc::new(10),
        max_soc: Soc::new(100),
        balance_weekday: None,
        solar_discharge_block_threshold: SolarPower::zero(),
        mqtt_timeout_secs: 120,
    }
}

fn engine() -> Engine {
    Engine::new(
        Controller::from_session(&config(), &clock_at(0)),
        World::new(),
        Duration::from_secs(config().mqtt_timeout_secs),
    )
}

/// A decision of a recorded run: its number, its instant, the state after it.
struct Recorded {
    seq: i64,
    at: Timestamp,
    state: EngineState,
    commands: Vec<(String, String)>,
}

/// Folds the events and numbers what the run wrote: each event, and after it its
/// decision.
fn record(events: &[Event]) -> (Vec<(i64, Event)>, Vec<Recorded>) {
    let mut engine = engine();
    let mut written = Vec::new();
    let mut decisions = Vec::new();
    let mut seq = 0;
    for event in events {
        seq += 1;
        written.push((seq, event.clone()));
        let step = engine.step(event);
        if step.decision.is_some() {
            seq += 1;
            decisions.push(Recorded {
                seq,
                at: event.at(),
                state: engine.state(),
                commands: step
                    .directives
                    .iter()
                    .map(|d| (d.device().as_str().to_string(), d.describe()))
                    .collect(),
            });
        }
    }
    (written, decisions)
}

/// The part of a recording from an instant on, seeded from the last decision at
/// or before it.
fn slice(events: &[Event], from: Timestamp, to: Timestamp) -> Slice {
    let (written, decisions) = record(events);
    let anchor = decisions.iter().filter(|d| d.at <= from).last();
    let after = |seq: i64, at: Timestamp| match anchor {
        Some(seed) => seq > seed.seq && at <= to,
        None => at >= from && at <= to,
    };
    Slice {
        version: "0.0.0-test".to_string(),
        config: config(),
        seed: anchor.map(|d| zendure::journal::Seed { at: d.at, state: d.state.clone() }),
        events: written
            .iter()
            .filter(|(seq, event)| after(*seq, event.at()))
            .map(|(seq, event)| SeqEvent { seq: *seq, event: event.clone() })
            .collect(),
        decisions: decisions
            .iter()
            .filter(|d| after(d.seq, d.at))
            .flat_map(|d| {
                d.commands.iter().map(|(device, command)| RecordedDecision {
                    seq: d.seq,
                    device: Some(device.clone()),
                    command: Some(command.clone()),
                })
            })
            .collect(),
        spans_sessions: false,
    }
}

fn start() -> Timestamp {
    Timestamp::from_millis(NOW_MS - 1)
}

fn end() -> Timestamp {
    Timestamp::from_millis(NOW_MS + 1_000_000)
}

fn whole() -> Fixture {
    from_slice(slice(&session_events(), start(), end())).unwrap()
}

fn frame(at_ms: i64, commands: &[(&str, Command)]) -> Frame {
    Frame {
        at: Timestamp::from_millis(at_ms),
        directives: commands
            .iter()
            .map(|(id, command)| Directive::Battery { device: DeviceId::new(id), command: *command })
            .collect(),
    }
}

#[test]
fn render_names_the_device_on_every_command() {
    let frames = vec![frame(1000, &[("SN1", Command::SetDischarge(Setpoint::new(145)))])];
    assert_eq!(render(&frames), "1000ms: SN1 set_discharge(145W)");
}

#[test]
fn render_lists_every_device_a_step_commanded() {
    let frames = vec![frame(7, &[("SN1", Command::SetIdle), ("SN2", Command::SetIdle)])];
    assert_eq!(render(&frames), "7ms: SN1 set_idle, SN2 set_idle");
}

#[test]
fn render_marks_a_step_that_commanded_nothing() {
    assert_eq!(render(&[frame(42, &[])]), "42ms: —");
}

#[test]
fn frames_are_rendered_one_to_a_line() {
    assert_eq!(render(&[frame(1, &[]), frame(-2, &[])]), "1ms: —\n-2ms: —");
    assert_eq!(render(&[]), "");
}

#[test]
fn replay_produces_one_frame_per_event_including_empty_ones() {
    let events = session_events();
    let frames = replay(&mut engine(), &events);

    assert_eq!(frames.len(), events.len());
    for (frame, event) in frames.iter().zip(&events) {
        assert_eq!(frame.at, event.at());
    }
    assert!(frames[0].directives.is_empty());
    assert!(frames[4].directives.is_empty());
    assert!(frames.iter().any(|f| !f.directives.is_empty()));
}

#[test]
fn a_recording_replays_to_the_commands_it_recorded() {
    let fixture = whole();
    let frames = run(&fixture, &[]).unwrap();

    verify(&fixture, &frames).expect("a replay of a recording must match it");

    assert!(
        fixture.expected.iter().any(|line| !line.ends_with("—")),
        "{:?}",
        fixture.expected
    );
}

/// A replay that ignored the seed would still match from the start, so a seed
/// taken from the middle has to matter.
#[test]
fn a_fixture_seeded_from_a_fresh_engine_replays_differently() {
    let events = session_events();
    let tail = events[2].at();
    let fixture = from_slice(slice(&events, tail, end())).unwrap();

    let seeded = run(&fixture, &[]).unwrap();
    verify(&fixture, &seeded).expect("the tail must verify from its own seed");

    let mut fresh = from_slice(slice(&events, tail, end())).unwrap();
    fresh.seed = Seed { at_ms: fixture.seed.at_ms, state: engine().state() };
    let unseeded = run(&fresh, &[]).unwrap();

    assert_ne!(render(&seeded), render(&unseeded));
}

#[test]
fn an_unsupported_format_is_refused() {
    let mut fixture = whole();
    fixture.format = FORMAT + 1;

    let err = run(&fixture, &[]).unwrap_err();
    assert!(err.contains("format"), "{err}");
}

#[test]
fn an_unknown_knob_is_an_error_that_lists_the_real_ones() {
    let err = apply_overrides(&config(), &[("min_sock".into(), "40".into())]).unwrap_err();
    assert!(err.contains("min_sock"), "{err}");
    assert!(err.contains("min_soc"), "{err}");
}

#[test]
fn an_override_replaces_exactly_one_knob() {
    let changed = apply_overrides(&config(), &[("min_soc".into(), "40".into())]).unwrap();

    assert_eq!(changed.min_soc, Soc::new(40));
    assert_eq!(SessionConfig { min_soc: config().min_soc, ..changed }, config());
}

#[test]
fn an_override_that_does_not_fit_its_knob_is_refused() {
    assert!(apply_overrides(&config(), &[("min_soc".into(), "later".into())]).is_err());
}

/// A value that does not fit is complained of as `serde_json` does, and the
/// first one by name where there are several.
#[test]
fn a_rejected_override_says_what_was_expected() {
    let says = |key: &str, raw: &str| {
        apply_overrides(&config(), &[(key.into(), raw.into())]).unwrap_err()
    };
    for raw in ["later", "true", "null", "[1]", "{}", "1.5", "-1", "5000000000", "1e3"] {
        let value: serde_json::Value = serde_json::from_str(raw)
            .unwrap_or_else(|_| serde_json::Value::String(raw.to_string()));
        let expected = serde_json::from_value::<u32>(value).unwrap_err();
        assert_eq!(says("min_soc", raw), format!("override rejected: {expected}"));
    }
    for raw in ["later", "false", "null", "[]"] {
        let value: serde_json::Value = serde_json::from_str(raw)
            .unwrap_or_else(|_| serde_json::Value::String(raw.to_string()));
        let expected = serde_json::from_value::<f64>(value).unwrap_err();
        assert_eq!(says("charge_start_threshold", raw), format!("override rejected: {expected}"));
    }
    assert_eq!(
        says("balance_weekday", "Someday"),
        "override rejected: short or long weekday names expected",
    );
    assert_eq!(
        says("balance_weekday", "3"),
        "override rejected: invalid type: integer `3`, expected Weekday",
    );
    let both = [("min_soc".to_string(), "x".to_string()), ("max_soc".into(), "-2".into())];
    assert_eq!(
        apply_overrides(&config(), &both).unwrap_err(),
        "override rejected: invalid value: integer `-2`, expected u32",
    );
}

#[test]
fn a_threshold_may_be_overridden_with_an_exponent() {
    let threshold = |raw: &str| {
        let overrides = [("discharge_start_threshold".to_string(), raw.to_string())];
        apply_overrides(&config(), &overrides).unwrap().discharge_start_threshold
    };
    assert_eq!(threshold("1e2"), GridPower { mw: 100_000 });
    assert_eq!(threshold("-2.5e1"), GridPower { mw: -25_000 });
    assert_eq!(threshold("1e-7"), GridPower { mw: 0 });
    assert_eq!(threshold("1e16"), GridPower { mw: i64::MAX });
    assert_eq!(threshold("20"), GridPower { mw: 20_000 });
}

/// Zero as the ceiling blocks charging outright, and the recording charges.
#[test]
fn an_override_changes_what_the_replay_decides() {
    let fixture = whole();
    let before = run(&fixture, &[]).unwrap();
    let after = run(&fixture, &[("max_soc".into(), "0".into())]).unwrap();

    assert_ne!(render(&before), render(&after));
    assert!(verify(&fixture, &after).is_err());
}

#[test]
fn an_empty_range_is_refused() {
    let before_everything = Timestamp::from_millis(NOW_MS - 10_000);
    let empty = slice(&session_events(), before_everything, before_everything);
    assert_eq!(from_slice(empty).unwrap_err(), "no replayable events in that range");
}

#[test]
fn a_range_is_anchored_to_the_last_decision_before_it() {
    let events = session_events();
    let from = events[7].at();
    let fixture = from_slice(slice(&events, from, end())).unwrap();

    assert!(
        fixture.seed.at_ms <= from.as_millis(),
        "seeded at {}ms, asked from {}ms",
        fixture.seed.at_ms,
        from.as_millis()
    );
    assert_eq!(fixture.events.first().map(Event::at), Some(events[8].at()));
}

#[test]
fn verify_rejects_a_recording_of_a_different_length() {
    let fixture = Fixture {
        format: FORMAT,
        session: SessionMeta {
            started_at_ms: 0,
            version: "0.0.0-test".to_string(),
            config: config(),
        },
        seed: Seed { at_ms: 0, state: engine().state() },
        events: vec![Event::MqttTimeout { at: clock_at(0) }],
        expected: vec!["0ms: —".to_string(), "1ms: —".to_string()],
    };

    let frames = run(&fixture, &[]).unwrap();
    let err = verify(&fixture, &frames).unwrap_err();
    assert!(err.contains("frames"), "{err}");
}

#[test]
fn a_multi_device_step_renders_in_a_stable_order() {
    let mut world = World::new();
    for id in ["b-second", "a-first"] {
        world.observe_device(DeviceId::new(id), Measurement::Battery(battery()));
    }
    let decision = ControlDecision {
        mode: ControlMode::Idle,
        power_watts: Setpoint::zero(),
        reason: "test".to_string(),
        grid_power: GridPower::zero(),
    };

    let frames = vec![Frame {
        at: Timestamp::from_millis(5),
        directives: allocate(&decision, &world),
    }];
    assert_eq!(render(&frames), "5ms: a-first set_idle, b-second set_idle");
}

#[test]
fn a_slice_across_a_restart_is_warned_of() {
    let mut spanning = slice(&session_events(), start(), end());
    assert!(slice_warnings(&slice(&session_events(), end(), end())).is_empty());
    let without_seed = slice_warnings(&spanning).len();
    spanning.spans_sessions = true;
    assert_eq!(slice_warnings(&spanning).len(), without_seed + 1);
}

/// A recording without a seed starts a fresh controller at its first event.
#[test]
fn a_recording_becomes_a_fixture() {
    let (written, _) = record(&session_events());
    let frames: Vec<RecordedFrame> = written
        .iter()
        .map(|(_, event)| RecordedFrame { event: event.clone(), commands: vec![] })
        .collect();
    let recording = Recording {
        version: "1.2.3".to_string(),
        started_at: start(),
        config: config(),
        seed: None,
        frames,
        warnings: vec!["careful".to_string()],
    };
    let (fixture, warnings) = from_recording(recording).unwrap();
    assert_eq!(fixture.format, FORMAT);
    assert_eq!(fixture.session.version, "1.2.3");
    assert_eq!(fixture.session.started_at_ms, NOW_MS - 1);
    assert_eq!(fixture.events.len(), 9);
    assert_eq!(fixture.expected[0], "1757000000000ms: —");
    assert!(warnings.contains(&"careful".to_string()));

    let empty = Recording {
        version: String::new(),
        started_at: start(),
        config: config(),
        seed: None,
        frames: vec![],
        warnings: vec![],
    };
    assert!(from_recording(empty).is_err());
}

/// A whole run, read back with captures between its rows, and replayed.
#[test]
fn a_run_written_down_replays_to_itself() {
    let mut recorder = engine();
    let seed = recorder.state();
    let mut seq = 40;
    let mut events = Vec::new();
    let mut decisions = Vec::new();
    for event in session_events() {
        seq += 1;
        events.push((seq, event.clone()));
        let step = recorder.step(&event);
        // A capture comes in before the decision is written.
        seq += 1;
        if step.decision.is_some() {
            if step.directives.is_empty() {
                seq += 1;
                decisions.push((seq, None, None));
            }
            for directive in &step.directives {
                seq += 1;
                decisions.push((
                    seq,
                    Some(directive.device().as_str().to_string()),
                    Some(directive.describe()),
                ));
            }
        }
    }
    let recording = Recording {
        version: "0.0.0-test".to_string(),
        started_at: start(),
        config: config(),
        seed: Some(zendure::journal::Seed { at: start(), state: seed }),
        frames: pair(events, &decisions),
        warnings: vec![],
    };
    let (fixture, warnings) = from_recording(recording).unwrap();
    assert!(warnings.is_empty());
    let frames = run(&fixture, &[]).unwrap();
    assert_eq!(verify(&fixture, &frames), Ok(()));
    assert!(fixture.expected.iter().any(|line| line.ends_with("set_idle")));
}
