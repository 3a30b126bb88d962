//! The fold over a session's events.

use zendure::allocate::Directive;
use zendure::battery::BatteryState;
use zendure::clock::{Clock, Weekday};
use zendure::command::Command;
use zendure::config::SessionConfig;
use zendure::controller::Controller;
use zendure::engine::{Engine, Step};
use zendure::event::Event;
use zendure::models::ControlMode;
use zendure::units::{
    BatteryPower, Duration, GridPower, PowerCap, PowerMargin, Soc, SolarPower, Timestamp,
};
use zendure::world::{DeviceId, Measurement, MeterReading, World};

const NOW_MS: i64 = 1_757_000_000_000;
const DAY: u32 = 100;
const BATTERY_ID: &str = "test-battery";

fn clock_at(secs: i64) -> Clock {
    Clock {
        now: Timestamp::from_millis(NOW_MS + secs * 1000),
        hour: 12,
        day_ordinal: DAY,
        weekday: Weekday::Wed,
    }
}

fn clock() -> Clock {
    clock_at(0)
}

fn tuning() -> SessionConfig {
    SessionConfig {
        charge_margin: PowerMargin::new(50),
        discharge_margin: PowerMargin::new(5),
        charge_start_threshold: GridPower { mw: -100_000 },
        discharge_start_threshold: GridPower { mw: 0 },
        min_mode_duration_secs: 10,
        min_decision_interval_secs: 0,
        idle_timeout_secs: 300,
        min_idle_before_discharge_secs: 300,
        cycle_warn_threshold: 200,
        min_soc: Soc::new(10),
        max_soc: Soc::new(100),
        balance_weekday: None,
        solar_discharge_block_threshold: SolarPower::zero(),
        mqtt_timeout_secs: 120,
    }
}

/// A minute of slack on both cooldowns and no idle start, so that the first
/// event of a test is never suppressed by timing it did not ask about.
fn controller() -> Controller {
    let mut controller = Controller::from_session(&tuning(), &clock());
    let minute_ago = Timestamp::from_millis(NOW_MS - 60_000);
    controller.state.last_mode_change = minute_ago;
    controller.state.last_decision = minute_ago;
    controller.state.last_idle_start = None;
    controller
}

fn battery() -> BatteryState {
    BatteryState {
        soc: Soc::new(50),
        max_discharge_power: PowerCap::new(800),
        max_charge_power: PowerCap::new(2400),
        current_power: BatteryPower::zero(),
        soc_calibrating: false,
        soc_limit_reached: false,
        fault: false,
    }
}

fn world() -> World {
    let mut world = World::new();
    world.observe_device(DeviceId::new(BATTERY_ID), Measurement::Battery(battery()));
    world
}

fn idle_for(id: &str) -> Directive {
    Directive::Battery { device: DeviceId::new(id), command: Command::SetIdle }
}

fn engine() -> Engine {
    Engine::new(controller(), world(), Duration::from_secs(120))
}

fn meter_at(secs: i64, watts: i64) -> Event {
    Event::Meter {
        at: clock_at(secs),
        grid: MeterReading::total_only(GridPower { mw: watts * 1000 }),
        solar: SolarPower::zero(),
    }
}

fn meter(watts: i64) -> Event {
    meter_at(0, watts)
}

/// A sequence that writes every field of the snapshot: swings across both start
/// thresholds, a device update, and an outage with its end.
fn journey() -> Vec<Event> {
    vec![
        meter_at(0, -500),
        meter_at(20, -800),
        meter_at(40, 300),
        Event::DeviceUpdate {
            at: clock_at(60),
            id: DeviceId::new(BATTERY_ID),
            measurement: Measurement::Battery(BatteryState { soc: Soc::new(81), ..battery() }),
        },
        Event::MqttTimeout { at: clock_at(80) },
        meter_at(100, 250),
        meter_at(120, -600),
        meter_at(140, 400),
    ]
}

#[test]
fn mqtt_timeout_forces_idle() {
    let mut engine = engine();
    let step = engine.step(&Event::MqttTimeout { at: clock() });

    assert_eq!(step.directives, vec![idle_for(BATTERY_ID)]);
    assert_eq!(step.decision.unwrap().mode, ControlMode::Idle);
    assert_eq!(step.status, Some("mqtt_timeout"));
}

#[test]
fn mqtt_timeout_idles_every_battery() {
    let mut world = World::new();
    world.observe_device(DeviceId::new("battery-a"), Measurement::Battery(battery()));
    world.observe_device(DeviceId::new("battery-b"), Measurement::Battery(battery()));
    let mut engine = Engine::new(controller(), world, Duration::from_secs(120));

    let step = engine.step(&Event::MqttTimeout { at: clock() });

    assert_eq!(step.directives, vec![idle_for("battery-a"), idle_for("battery-b")]);
}

#[test]
fn repeated_timeout_re_asserts_idle_but_reports_once() {
    let mut engine = engine();
    engine.step(&Event::MqttTimeout { at: clock() });
    let step = engine.step(&Event::MqttTimeout { at: clock() });

    assert_eq!(step.directives, vec![idle_for(BATTERY_ID)]);
    assert_eq!(step.decision.unwrap().mode, ControlMode::Idle);
    assert_eq!(step.status, None);
}

#[test]
fn timeout_re_asserts_idle_for_as_long_as_the_outage_lasts() {
    let mut engine = engine();
    for _ in 0..5 {
        let step = engine.step(&Event::MqttTimeout { at: clock() });
        assert_eq!(step.directives, vec![idle_for(BATTERY_ID)]);
    }
}

#[test]
fn status_is_reported_again_after_a_resume() {
    let mut engine = engine();
    engine.step(&Event::MqttTimeout { at: clock() });
    engine.step(&Event::MqttTimeout { at: clock() });
    engine.step(&meter(500));

    let step = engine.step(&Event::MqttTimeout { at: clock() });
    assert_eq!(step.status, Some("mqtt_timeout"));
}

#[test]
fn grid_reading_after_timeout_restores_operational() {
    let mut engine = engine();
    engine.step(&Event::MqttTimeout { at: clock() });

    let step = engine.step(&meter(500));

    assert_eq!(step.status, Some("operational"));
}

#[test]
fn grid_reading_without_prior_timeout_has_no_status() {
    let mut engine = engine();
    let step = engine.step(&meter(500));

    assert_eq!(step.status, None);
}

/// Two engines built alike and fed the same events produce the same steps.
#[test]
fn the_fold_is_deterministic() {
    let events = [
        meter(500),
        Event::DeviceUpdate {
            at: clock(),
            id: DeviceId::new(BATTERY_ID),
            measurement: Measurement::Battery(battery()),
        },
        Event::MqttTimeout { at: clock() },
        Event::MqttTimeout { at: clock() },
        meter(500),
    ];

    let mut engine_a = engine();
    let steps_a: Vec<Step> = events.iter().map(|event| engine_a.step(event)).collect();

    let mut engine_b = engine();
    let steps_b: Vec<Step> = events.iter().map(|event| engine_b.step(event)).collect();

    assert_eq!(steps_a, steps_b);
}

/// After the timeout, so the second half opens with the failsafe latched and the
/// first reading has to report the return to normal.
const SPLIT: usize = 5;

#[test]
fn a_restored_engine_resumes_the_fold_exactly() {
    let events = journey();

    let mut continuous = engine();
    let expected: Vec<Step> = events.iter().map(|e| continuous.step(e)).collect();

    let mut recorded = engine();
    for event in &events[..SPLIT] {
        recorded.step(event);
    }
    let snapshot = recorded.state();

    let mut resumed = engine();
    resumed.restore(snapshot);

    let actual: Vec<Step> = events[SPLIT..].iter().map(|e| resumed.step(e)).collect();
    assert_eq!(actual, expected[SPLIT..]);
    assert_eq!(resumed.state(), continuous.state());
}

/// A fresh engine must not produce the same steps, or the comparison above would
/// hold without the snapshot.
#[test]
fn the_same_journey_diverges_without_the_snapshot() {
    let events = journey();

    let mut continuous = engine();
    let expected: Vec<Step> = events.iter().map(|e| continuous.step(e)).collect();

    let mut cold = engine();
    let actual: Vec<Step> = events[SPLIT..].iter().map(|e| cold.step(e)).collect();

    assert_ne!(actual, expected[SPLIT..]);
}

#[test]
fn battery_update_refreshes_state_without_a_decision() {
    let mut engine = engine();
    let updated = BatteryState { soc: Soc::new(80), ..battery() };

    let step = engine.step(&Event::DeviceUpdate {
        at: clock(),
        id: DeviceId::new(BATTERY_ID),
        measurement: Measurement::Battery(updated),
    });

    assert!(step.directives.is_empty());
    assert!(step.decision.is_none());
    assert!(step.status.is_none());
    assert_eq!(engine.battery().unwrap().soc, Soc::new(80));
}

#[test]
fn a_reading_is_decided_on_and_counted() {
    let mut engine = engine();
    let step = engine.step(&meter(-500));
    let decision = step.decision.unwrap();
    assert_eq!(decision.mode, ControlMode::Charge);
    assert_eq!(decision.reason, "Solar excess: exporting 500W, charging at 337W (ramped 75%)");
    assert_eq!(engine.cycle_counts().daily_transitions, 1);
    assert_eq!(engine.cycle_counts().daily_cooldown_suppressions, 0);
}

/// An engine that knows no battery decides nothing and commands nothing.
#[test]
fn without_a_battery_nothing_is_decided() {
    let mut engine = Engine::new(controller(), World::new(), Duration::from_secs(120));
    let step = engine.step(&meter(-500));
    assert_eq!(step, Step { directives: vec![], decision: None, status: None });
    assert!(engine.battery().is_none());
}
