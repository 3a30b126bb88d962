//! The batteries a process drives, and how directives reach them.

use std::cell::RefCell;

use zendure::allocate::Directive;
use zendure::command::Command;
use zendure::config::Config;
use zendure::device::{Applied, BatteryController, ControlPath, Outcome};
use zendure::registry::{all_applied, from_config, Actuation, Battery, Devices};
use zendure::units::{Setpoint, Timestamp};
use zendure::world::DeviceId;

/// The boxes behind the batteries: each keeps what it was told, and one of them
/// fails at one call.
struct Boxes {
    applied: RefCell<Vec<(DeviceId, Command)>>,
    fails_at: Option<usize>,
}

impl Boxes {
    fn new() -> Self {
        Boxes { applied: RefCell::new(Vec::new()), fails_at: None }
    }

    fn failing_at(index: usize) -> Self {
        Boxes { fails_at: Some(index), ..Boxes::new() }
    }

    fn applied_to(&self, id: &str) -> Vec<Command> {
        self.applied
            .borrow()
            .iter()
            .filter(|(device, _)| device == &DeviceId::new(id))
            .map(|(_, command)| *command)
            .collect()
    }

    fn apply(&self, id: DeviceId, command: Command) -> Result<(), String> {
        self.applied.borrow_mut().push((id, command));
        if self.fails_at == Some(self.applied.borrow().len() - 1) {
            return Err("device unreachable".to_string());
        }
        Ok(())
    }
}

fn registered(ids: &[&str]) -> Devices<Battery> {
    Devices::new(ids.iter().map(|id| Battery::zendure("192.168.1.253", id)).collect())
}

fn directive(device: &str, command: Command) -> Directive {
    Directive::Battery { device: DeviceId::new(device), command }
}

fn actuate(devices: &Devices<Battery>, boxes: &Boxes, directives: Vec<Directive>) -> Vec<Outcome> {
    let mut round = Actuation::new(directives);
    while let Some((id, command)) = round.next(devices) {
        assert!(devices.battery(&id).is_some());
        round.settle(boxes.apply(id, command));
    }
    round.finish()
}

#[test]
fn applies_every_directive_in_order() {
    let devices = registered(&["battery-a"]);
    let boxes = Boxes::new();
    let outcomes = actuate(
        &devices,
        &boxes,
        vec![
            directive("battery-a", Command::SetIdle),
            directive("battery-a", Command::SetCharge(Setpoint::new(1200))),
        ],
    );

    assert_eq!(
        boxes.applied_to("battery-a"),
        vec![Command::SetIdle, Command::SetCharge(Setpoint::new(1200))],
    );
    assert_eq!(outcomes.len(), 2);
    assert_eq!(outcomes[0].device, DeviceId::new("battery-a"));
    assert_eq!(outcomes[0].command, "set_idle");
    assert_eq!(outcomes[0].applied, Applied::Done);
    assert_eq!(outcomes[1].device, DeviceId::new("battery-a"));
    assert_eq!(outcomes[1].command, "set_charge(1200W)");
    assert_eq!(outcomes[1].applied, Applied::Done);
    assert!(all_applied(&outcomes));
}

#[test]
fn a_failure_does_not_stop_the_rest() {
    let devices = registered(&["battery-a"]);
    let boxes = Boxes::failing_at(0);
    let outcomes = actuate(
        &devices,
        &boxes,
        vec![
            directive("battery-a", Command::SetIdle),
            directive("battery-a", Command::SetCharge(Setpoint::new(1200))),
        ],
    );

    assert_eq!(
        boxes.applied_to("battery-a"),
        vec![Command::SetIdle, Command::SetCharge(Setpoint::new(1200))],
    );
    assert_eq!(outcomes[0].applied, Applied::Error);
    assert_eq!(outcomes[0].error.as_deref(), Some("device unreachable"));
    assert_eq!(outcomes[1].applied, Applied::Done);
    assert_eq!(outcomes[1].error, None);
    assert!(!all_applied(&outcomes));
}

#[test]
fn a_directive_for_another_device_is_an_error_and_is_not_applied() {
    let devices = registered(&["battery-a"]);
    let boxes = Boxes::new();
    let outcomes = actuate(
        &devices,
        &boxes,
        vec![
            directive("battery-b", Command::SetCharge(Setpoint::new(1200))),
            directive("battery-a", Command::SetIdle),
        ],
    );

    assert_eq!(boxes.applied_to("battery-a"), vec![Command::SetIdle]);
    assert_eq!(outcomes[0].device, DeviceId::new("battery-b"));
    assert_eq!(outcomes[0].applied, Applied::Error);
    assert_eq!(
        outcomes[0].error.as_deref(),
        Some("no adapter registered for device battery-b"),
    );
    assert_eq!(outcomes[1].device, DeviceId::new("battery-a"));
    assert_eq!(outcomes[1].applied, Applied::Done);
}

#[test]
fn a_directive_reaches_the_device_it_names_and_the_other_is_untouched() {
    let devices = registered(&["battery-a", "battery-b"]);
    let boxes = Boxes::new();
    let outcomes =
        actuate(&devices, &boxes, vec![directive("battery-b", Command::SetCharge(Setpoint::new(900)))]);

    assert_eq!(boxes.applied_to("battery-a"), Vec::new());
    assert_eq!(
        boxes.applied_to("battery-b"),
        vec![Command::SetCharge(Setpoint::new(900))]
    );
    assert_eq!(outcomes.len(), 1);
    assert_eq!(outcomes[0].device, DeviceId::new("battery-b"));
    assert_eq!(outcomes[0].applied, Applied::Done);
}

#[test]
fn a_directive_for_an_unregistered_device_applies_nowhere() {
    let devices = registered(&["battery-a", "battery-b"]);
    let boxes = Boxes::new();
    let outcomes = actuate(&devices, &boxes, vec![directive("battery-c", Command::SetIdle)]);

    assert_eq!(boxes.applied_to("battery-a"), Vec::new());
    assert_eq!(boxes.applied_to("battery-b"), Vec::new());
    assert_eq!(outcomes.len(), 1);
    assert_eq!(outcomes[0].device, DeviceId::new("battery-c"));
    assert_eq!(outcomes[0].applied, Applied::Error);
    assert_eq!(
        outcomes[0].error.as_deref(),
        Some("no adapter registered for device battery-c"),
    );
}

/// Registered out of order, so that insertion order would not do.
#[test]
fn primary_is_the_lowest_id() {
    let devices = registered(&["zzz", "aaa", "mmm"]);

    let (id, _) = devices.primary().expect("three batteries were registered");
    assert_eq!(id, &DeviceId::new("aaa"));
}

#[test]
fn a_configured_device_becomes_its_adapter() {
    let (config, _) = Config::from_toml_str(
        r#"
        [mqtt]
        host = "127.0.0.1"
        [[device]]
        kind = "zendure"
        ip = "192.168.1.253"
        sn = "SN123"
        poll_interval_secs = 10
        [shelly]
        topic = "x"
    "#,
    )
    .unwrap();
    let devices = from_config(&config, Timestamp::from_millis(0));
    let (id, battery) = devices.primary().unwrap();
    assert_eq!(id, &DeviceId::new("SN123"));
    assert!(matches!(battery, Battery::Zendure { ip, .. } if ip == "192.168.1.253"));

    let (config, _) = Config::from_toml_str(
        r#"
        [[device]]
        kind = "virtual"
        id = "sim"
        packs = [10000.0]
        soc = 50
        charge_efficiency = 95.0
        discharge_efficiency = 95.0
        [meter]
        kind = "synthetic"
        base_load = 500
        solar_peak = 3000
    "#,
    )
    .unwrap();
    let devices = from_config(&config, Timestamp::from_millis(0));
    let (id, battery) = devices.primary().unwrap();
    assert_eq!(id, &DeviceId::new("sim"));
    assert!(matches!(battery, Battery::Virtual(_)));
    assert!(devices.battery(&DeviceId::new("other")).is_none());
    assert_eq!(Battery::zendure("1.2.3.4", "S").id(), &DeviceId::new("S"));
}

#[test]
fn a_path_has_its_words() {
    assert_eq!(ControlPath::Objective.journal_kind(), "decision");
    assert_eq!(ControlPath::Failsafe.journal_kind(), "failsafe");
    assert_eq!(ControlPath::Objective.ok_status(), "operational");
}
