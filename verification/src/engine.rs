//! The event-driven fold at the heart of the controller.

use vstd::prelude::*;

use crate::allocate::{allocate, allocated, orders, Directive, Order};
use crate::battery::BatteryState;
use crate::clock::Clock;
use crate::command::Command;
use crate::config::SessionConfig;
use crate::controller::{considered, Controller, ControllerState};
use crate::event::{Event, Happening};
use crate::models::{ControlDecision, ControlMode, CycleCounts, Decision};
use crate::text;
use crate::text::decimal;
use crate::units::{Duration, GridPower, Setpoint, SolarPower};
use crate::world::{
    in_order, lookup, put_is_a_map_update, House, Measurement, MeterReading, World,
};

verus! {

/// Owns the latest view of the world, and whether it is standing down because
/// the meter went quiet.
pub struct Engine {
    controller: Controller,
    world: World,
    mqtt_timed_out: bool,
    mqtt_timeout: Duration,
}

/// What one event asks for: the directives to actuate, the decision to publish
/// where one was made, and a status transition where the event caused one.
#[derive(Debug, PartialEq)]
pub struct Step {
    pub directives: Vec<Directive>,
    pub decision: Option<ControlDecision>,
    pub status: Option<&'static str>,
}

/// Everything needed to resume the fold from a point in time.
#[derive(Debug, PartialEq)]
pub struct EngineState {
    pub world: World,
    pub controller: ControllerState,
    pub mqtt_timed_out: bool,
}

// --- model ---------------------------------------------------------------------

/// An [`EngineState`] as a mathematical value.
pub struct Snapshot {
    pub house: House,
    pub controller: ControllerState,
    pub timed_out: bool,
}

/// What an engine was built with, which no event changes.
pub struct Settings {
    pub tuning: SessionConfig,
    pub mqtt_timeout: Duration,
}

/// A [`Step`] as a mathematical value.
#[verifier::ext_equal]
pub struct Reaction {
    pub orders: Seq<Order>,
    pub decision: Option<Decision>,
    pub status: Option<Seq<char>>,
}

impl View for EngineState {
    type V = Snapshot;

    open spec fn view(&self) -> Snapshot {
        Snapshot {
            house: self.world@,
            controller: self.controller,
            timed_out: self.mqtt_timed_out,
        }
    }
}

impl Clone for EngineState {
    fn clone(&self) -> (out: Self)
        ensures
            out@ == self@,
    {
        EngineState {
            world: self.world.clone(),
            controller: self.controller,
            mqtt_timed_out: self.mqtt_timed_out,
        }
    }
}

impl View for Step {
    type V = Reaction;

    open spec fn view(&self) -> Reaction {
        Reaction {
            orders: orders(self.directives@),
            decision: match self.decision {
                Some(decision) => Some(decision@),
                None => None,
            },
            status: match self.status {
                Some(status) => Some(status@),
                None => None,
            },
        }
    }
}

/// The decision that stands everything down.
pub open spec fn failsafe(mqtt_timeout: Duration) -> Decision {
    Decision {
        mode: ControlMode::Idle,
        power: Setpoint::zero(),
        reason: "MQTT timeout: no updates for "@ + decimal(mqtt_timeout.secs as nat) + "s"@,
        grid: GridPower::zero(),
    }
}

/// One step of the fold.
pub open spec fn stepped(settings: Settings, state: Snapshot, event: Happening) -> (
    Snapshot,
    Reaction,
) {
    match event {
        Happening::Meter { at, grid, solar } => {
            let house = state.house.observe_meter(grid, solar);
            let (controller, decision) = considered(settings.tuning, state.controller, house, at);
            (
                Snapshot { house, controller, timed_out: false },
                Reaction {
                    orders: match decision {
                        Some(decision) => allocated(decision, house),
                        None => Seq::empty(),
                    },
                    decision,
                    status: if state.timed_out {
                        Some("operational"@)
                    } else {
                        None
                    },
                },
            )
        },
        Happening::DeviceUpdate { id, measurement, .. } => (
            Snapshot { house: state.house.observe_device(id, measurement), ..state },
            Reaction { orders: Seq::empty(), decision: None, status: None },
        ),
        Happening::MqttTimeout { .. } => (
            Snapshot { timed_out: true, ..state },
            Reaction {
                orders: allocated(failsafe(settings.mqtt_timeout), state.house),
                decision: Some(failsafe(settings.mqtt_timeout)),
                status: if state.timed_out {
                    None
                } else {
                    Some("mqtt_timeout"@)
                },
            },
        ),
    }
}

/// The state after a run of events.
pub open spec fn folded(settings: Settings, state: Snapshot, events: Seq<Happening>) -> Snapshot
    decreases events.len(),
{
    if events.len() == 0 {
        state
    } else {
        stepped(settings, folded(settings, state, events.drop_last()), events.last()).0
    }
}

/// The reaction to each of a run of events.
pub open spec fn reactions(settings: Settings, state: Snapshot, events: Seq<Happening>) -> Seq<
    Reaction,
> {
    Seq::new(
        events.len(),
        |i: int| stepped(settings, folded(settings, state, events.take(i)), events[i]).1,
    )
}

// --- implementation ------------------------------------------------------------

impl Engine {
    pub closed spec fn settings(self) -> Settings {
        Settings { tuning: self.controller.tuning, mqtt_timeout: self.mqtt_timeout }
    }

    pub closed spec fn snapshot(self) -> Snapshot {
        Snapshot {
            house: self.world@,
            controller: self.controller.state,
            timed_out: self.mqtt_timed_out,
        }
    }

    pub fn new(controller: Controller, world: World, mqtt_timeout: Duration) -> (out: Self)
        ensures
            out.settings() == (Settings { tuning: controller.tuning, mqtt_timeout }),
            out.snapshot() == (Snapshot {
                house: world@,
                controller: controller.state,
                timed_out: false,
            }),
    {
        Engine { controller, world, mqtt_timed_out: false, mqtt_timeout }
    }

    /// The battery the engine is currently deciding against.
    pub fn battery(&self) -> (out: Option<BatteryState>)
        ensures
            out == self.snapshot().house.battery(),
    {
        self.world.battery()
    }

    pub fn cycle_counts(&self) -> (out: CycleCounts)
        ensures
            out.daily_transitions == self.snapshot().controller.daily_transitions,
            out.daily_cooldown_suppressions
                == self.snapshot().controller.daily_cooldown_suppressions,
    {
        self.controller.cycle_counts()
    }

    /// A snapshot of the fold.
    pub fn state(&self) -> (out: EngineState)
        ensures
            out@ == self.snapshot(),
    {
        EngineState {
            world: self.world.clone(),
            controller: self.controller.state(),
            mqtt_timed_out: self.mqtt_timed_out,
        }
    }

    /// Resumes from a snapshot. What the engine was built with stays.
    pub fn restore(&mut self, state: EngineState)
        ensures
            final(self).snapshot() == state@,
            final(self).settings() == old(self).settings(),
    {
        let EngineState { world, controller, mqtt_timed_out } = state;
        self.world = world;
        self.controller.restore(controller);
        self.mqtt_timed_out = mqtt_timed_out;
    }

    /// Takes in one event.
    pub fn step(&mut self, event: &Event) -> (out: Step)
        ensures
            final(self).settings() == old(self).settings(),
            (final(self).snapshot(), out@) == stepped(
                old(self).settings(),
                old(self).snapshot(),
                event@,
            ),
    {
        match event {
            Event::Meter { at, grid, solar } => self.step_meter(at, *grid, *solar),
            Event::DeviceUpdate { id, measurement, .. } => {
                self.world.observe_device(id.clone(), *measurement);
                let out = Step { directives: Vec::new(), decision: None, status: None };
                assert(out@.orders =~= Seq::<Order>::empty());
                out
            },
            Event::MqttTimeout { .. } => self.step_mqtt_timeout(),
        }
    }

    fn step_meter(&mut self, at: &Clock, grid: MeterReading, solar: SolarPower) -> (out: Step)
        ensures
            final(self).settings() == old(self).settings(),
            (final(self).snapshot(), out@) == stepped(
                old(self).settings(),
                old(self).snapshot(),
                (Happening::Meter { at: *at, grid, solar }),
            ),
    {
        let mut status: Option<&'static str> = None;
        if self.mqtt_timed_out {
            self.mqtt_timed_out = false;
            status = Some("operational");
        }
        // Fold before deciding: the reading has to outlive this step.
        self.world.observe_meter(grid, solar);
        let decision = self.controller.decide(&self.world, at);
        let directives = match &decision {
            Some(decision) => allocate(decision, &self.world),
            None => Vec::new(),
        };
        let out = Step { directives, decision, status };
        assert(out@.orders =~= stepped(
            old(self).settings(),
            old(self).snapshot(),
            Happening::Meter { at: *at, grid, solar },
        ).1.orders);
        out
    }

    /// Latches the reporting, not the command. Idle is asserted again on every
    /// timeout, because the engine cannot know whether the write landed.
    fn step_mqtt_timeout(&mut self) -> (out: Step)
        ensures
            final(self).settings() == old(self).settings(),
            forall|at: Clock|
                (final(self).snapshot(), out@) == #[trigger] stepped(
                    old(self).settings(),
                    old(self).snapshot(),
                    Happening::MqttTimeout { at },
                ),
    {
        let first_tick = !self.mqtt_timed_out;
        self.mqtt_timed_out = true;
        let mut reason = "MQTT timeout: no updates for ".to_owned();
        text::push_decimal(&mut reason, self.mqtt_timeout.as_secs() as u128);
        reason.append("s");
        let decision = ControlDecision {
            mode: ControlMode::Idle,
            power_watts: Setpoint::zero(),
            reason,
            grid_power: GridPower::zero(),
        };
        let directives = allocate(&decision, &self.world);
        let status: Option<&'static str> = if first_tick {
            Some("mqtt_timeout")
        } else {
            None
        };
        Step { directives, decision: Some(decision), status }
    }
}

// --- laws ----------------------------------------------------------------------

/// An engine restored from a snapshot resumes the fold exactly: a run of
/// events taken in two parts, the second from the snapshot after the first,
/// ends in the same state and causes the same reactions as the run in one.
pub proof fn a_restored_engine_resumes_the_fold(
    settings: Settings,
    state: Snapshot,
    first: Seq<Happening>,
    second: Seq<Happening>,
)
    ensures
        folded(settings, state, first + second) == folded(
            settings,
            folded(settings, state, first),
            second,
        ),
        reactions(settings, state, first + second) == reactions(settings, state, first)
            + reactions(settings, folded(settings, state, first), second),
    decreases second.len(),
{
    fold_of_parts(settings, state, first, second);
    let whole = first + second;
    let parts = reactions(settings, state, first) + reactions(
        settings,
        folded(settings, state, first),
        second,
    );
    assert forall|i: int| 0 <= i < whole.len() implies reactions(settings, state, whole)[i]
        == parts[i] by {
        if i < first.len() {
            assert(whole.take(i) =~= first.take(i));
        } else {
            let k = i - first.len();
            assert(whole.take(i) =~= first + second.take(k));
            fold_of_parts(settings, state, first, second.take(k));
        }
    }
    assert(reactions(settings, state, whole) =~= parts);
}

proof fn fold_of_parts(
    settings: Settings,
    state: Snapshot,
    first: Seq<Happening>,
    second: Seq<Happening>,
)
    ensures
        folded(settings, state, first + second) == folded(
            settings,
            folded(settings, state, first),
            second,
        ),
    decreases second.len(),
{
    if second.len() == 0 {
        assert(first + second =~= first);
    } else {
        assert((first + second).drop_last() =~= first + second.drop_last());
        fold_of_parts(settings, state, first, second.drop_last());
    }
}

/// A timeout stands every battery down, each time it comes and whatever the
/// engine did before: one idle command per battery, and a decision that says
/// so.
pub proof fn a_timeout_idles_every_battery(settings: Settings, state: Snapshot, at: Clock, i: int)
    ensures
        ({
            let (after, reaction) = stepped(settings, state, Happening::MqttTimeout { at });
            &&& reaction.decision == Some(failsafe(settings.mqtt_timeout))
            &&& reaction.orders.len() == state.house.devices.len()
            &&& 0 <= i < reaction.orders.len() ==> reaction.orders[i] == (Order {
                device: state.house.devices[i].0,
                command: Command::SetIdle,
            })
            &&& after.timed_out
            &&& after.house == state.house
            &&& after.controller == state.controller
        }),
{
}

/// Among events without a meter reading, only the first timeout is reported:
/// while the outage is latched no later event reports a status.
pub proof fn an_outage_is_reported_once(
    settings: Settings,
    state: Snapshot,
    events: Seq<Happening>,
    i: int,
)
    requires
        state.timed_out,
        forall|k: int| 0 <= k < events.len() ==> !(#[trigger] events[k] is Meter),
    ensures
        folded(settings, state, events).timed_out,
        0 <= i < events.len() ==> reactions(settings, state, events)[i].status is None,
    decreases events.len(),
{
    if events.len() > 0 {
        let front = events.drop_last();
        assert forall|k: int| 0 <= k < front.len() implies !(#[trigger] front[k] is Meter) by {
            assert(front[k] == events[k]);
        }
        an_outage_is_reported_once(settings, state, front, i);
        if 0 <= i < events.len() {
            let lead = events.take(i);
            assert forall|k: int| 0 <= k < lead.len() implies !(#[trigger] lead[k] is Meter) by {
                assert(lead[k] == events[k]);
            }
            if i < front.len() {
                assert(front.take(i) =~= lead);
            } else {
                assert(front =~= lead);
            }
            assert(!(events[i] is Meter));
            if i == events.len() - 1 {
                assert(folded(settings, state, lead).timed_out);
            }
        }
        assert(!(events.last() is Meter));
    }
}

/// A meter reading after a timeout announces that operation resumed, and one
/// without a timeout before it announces nothing; either way the outage is
/// over, so that the next timeout is reported again.
pub proof fn a_reading_ends_the_outage(
    settings: Settings,
    state: Snapshot,
    at: Clock,
    grid: MeterReading,
    solar: SolarPower,
    later: Clock,
)
    ensures
        ({
            let (after, reaction) = stepped(settings, state, Happening::Meter { at, grid, solar });
            let again = stepped(settings, after, Happening::MqttTimeout { at: later }).1;
            &&& reaction.status == if state.timed_out {
                Some("operational"@)
            } else {
                None
            }
            &&& !after.timed_out
            &&& again.status == Some("mqtt_timeout"@)
        }),
{
}

/// What a device says about itself changes what is known of it, and nothing
/// else: no command, no decision, no status.
pub proof fn a_device_update_decides_nothing(
    settings: Settings,
    state: Snapshot,
    event: Happening,
)
    requires
        event is DeviceUpdate,
    ensures
        ({
            let (after, reaction) = stepped(settings, state, event);
            &&& reaction.orders.len() == 0
            &&& reaction.decision is None
            &&& reaction.status is None
            &&& after.controller == state.controller
            &&& after.timed_out == state.timed_out
            &&& after.house.grid == state.house.grid
            &&& after.house.solar == state.house.solar
        }),
{
}

/// Orders come from a decision and from nothing else.
pub proof fn no_decision_no_orders(settings: Settings, state: Snapshot, event: Happening)
    ensures
        stepped(settings, state, event).1.decision is None ==> stepped(
            settings,
            state,
            event,
        ).1.orders.len() == 0,
{
}

/// A reading is taken in and then decided upon: the house is the one that the meter
/// has just described, and what is ordered carries out what was decided.
pub proof fn a_reading_is_decided_upon(
    settings: Settings,
    state: Snapshot,
    at: Clock,
    grid: MeterReading,
    solar: SolarPower,
)
    ensures
        ({
            let (after, reaction) = stepped(settings, state, Happening::Meter { at, grid, solar });
            let house = House { grid, solar, devices: state.house.devices };
            &&& after.house == house
            &&& (after.controller, reaction.decision) == considered(
                settings.tuning,
                state.controller,
                house,
                at,
            )
            &&& reaction.decision matches Some(decision) ==> reaction.orders == allocated(
                decision,
                house,
            )
            &&& reaction.decision is None ==> reaction.orders.len() == 0
        }),
{
}

/// A report of a device is what is known of it from then on, and what is known of
/// every other stays.
pub proof fn a_device_update_is_taken_in(
    settings: Settings,
    state: Snapshot,
    at: Clock,
    id: Seq<char>,
    measurement: Measurement,
    other: Seq<char>,
)
    requires
        in_order(state.house.devices),
    ensures
        ({
            let after = stepped(
                settings,
                state,
                Happening::DeviceUpdate { at, id, measurement },
            ).0;
            &&& lookup(after.house.devices, id) == Some(measurement)
            &&& other != id ==> lookup(after.house.devices, other) == lookup(
                state.house.devices,
                other,
            )
            &&& in_order(after.house.devices)
        }),
{
    put_is_a_map_update(state.house.devices, id, measurement, id);
    put_is_a_map_update(state.house.devices, id, measurement, other);
}

/// The failsafe idles, commands no power, answers no reading, and says for how long
/// nothing was heard.
pub proof fn the_failsafe_stands_down(mqtt_timeout: Duration)
    ensures
        failsafe(mqtt_timeout).mode == ControlMode::Idle,
        failsafe(mqtt_timeout).power.watts == 0,
        failsafe(mqtt_timeout).grid.mw == 0,
        failsafe(mqtt_timeout).reason == "MQTT timeout: no updates for "@ + decimal(
            mqtt_timeout.secs as nat,
        ) + "s"@,
{
}

/// Events are taken in one after the other, oldest first, each in the state that the
/// ones before it left.
pub proof fn events_are_taken_in_order(
    settings: Settings,
    state: Snapshot,
    events: Seq<Happening>,
    last: Happening,
)
    ensures
        folded(settings, state, Seq::empty()) == state,
        folded(settings, state, events.push(last)) == stepped(
            settings,
            folded(settings, state, events),
            last,
        ).0,
        reactions(settings, state, events.push(last)) == reactions(settings, state, events).push(
            stepped(settings, folded(settings, state, events), last).1,
        ),
{
    let all = events.push(last);
    assert(all.drop_last() =~= events);
    assert forall|i: int| 0 <= i < events.len() implies reactions(settings, state, all)[i]
        == reactions(settings, state, events)[i] by {
        assert(all.take(i) =~= events.take(i));
    }
    assert(all.take(events.len() as int) =~= events);
    assert(reactions(settings, state, all) =~= reactions(settings, state, events).push(
        stepped(settings, folded(settings, state, events), last).1,
    ));
}

} // verus!
