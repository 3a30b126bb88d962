//! The coordinator: what each thing that can happen to a running process asks
//! for.
//!
//! The process waits for a reading, a deadline, a poll or a signal, and hands
//! over what came. Everything that it then has to do is decided here.

use vstd::prelude::*;

use crate::allocate::{orders, Directive, Order};
use crate::announce::{told, Announcer};
use crate::battery::BatteryState;
use crate::calendar::{day_number, local_time, utc_day, year_and_ordinal};
use crate::clock::Clock;
use crate::config::{Config, SolarPhase};
use crate::controller::{fresh_state, Controller};
use crate::device::{
    Applied, BatteryReading, BatteryTelemetry, ControlPath, Outcome, PollError, RawCapture,
};
use crate::engine::{
    a_device_update_decides_nothing, stepped, Engine, Reaction, Settings, Snapshot, Step,
};
use crate::event::{Event, Happening};
use crate::models::{ControlDecision, ControlMode, CycleCounts, Decision};
use crate::mqtt::discovery::{
    calibrating_reading, cycle_readings, decision_readings, packs_asked_where_due,
    packs_known_after, power_readings, publish_battery_power, publish_battery_soc,
    publish_cycle_counts, publish_decision, publish_rte, publish_soc_calibrating, publish_status,
    publish_temperatures, rte_readings, soc_reading, status_reading, temperatures_told, PackAnswer,
};
use crate::mqtt::subscriber::MqttEvent;
use crate::publish::{exchange, Accepted, Publisher, Sent};
use crate::registry::all_applied;
use crate::rte::{pruned, sampled, usable, RteTracker, WINDOW_MS};
use crate::text;
use crate::text::decimal;
use crate::units::{
    saturate_i64, saturated_i64, Duration, KiloWattHours, Percent, Soc, SolarPower, Timestamp,
    WattHours,
};
use crate::world::{is_unknown, DeviceId, Measurement, World};

verus! {

/// How long each half of a shutdown waits before giving up and saying so.
pub const DRAIN_DEADLINE_SECS: u64 = 2;

/// Why the loop stopped.
#[derive(Debug, Clone, Copy, PartialEq, Eq, Structural)]
pub enum StopReason {
    Sigterm,
    Sigint,
}

impl StopReason {
    pub open spec fn spec_text(self) -> Seq<char> {
        match self {
            StopReason::Sigterm => "SIGTERM"@,
            StopReason::Sigint => "SIGINT"@,
        }
    }

    pub fn to_string(&self) -> (out: String)
        ensures
            out@ == self.spec_text(),
    {
        match self {
            StopReason::Sigterm => "SIGTERM".to_owned(),
            StopReason::Sigint => "SIGINT".to_owned(),
        }
    }
}

// --- the loop ------------------------------------------------------------------

/// The engine, and when the meter counts as silent.
pub struct Coordinator {
    pub engine: Engine,
    /// The battery's identity in the world, as its adapter gives it.
    pub device_id: DeviceId,
    pub mqtt_timeout: Duration,
    /// On a clock that never goes back. A reading moves it, and so does every
    /// time that it passes.
    pub deadline: Timestamp,
}

/// `span` after `now`, as far as the clock goes.
pub open spec fn after(now: Timestamp, span: Duration) -> Timestamp {
    Timestamp { ms: saturated_i64(now.ms + span@) as i64 }
}

fn later(now: Timestamp, span: Duration) -> (out: Timestamp)
    ensures
        out == after(now, span),
{
    Timestamp::from_millis(saturate_i64(now.as_millis() as i128 + span.as_millis() as i128))
}

/// What an event asks for once it is taken in.
#[derive(Debug)]
pub struct Turn {
    pub step: Step,
    /// Which path a decision is on.
    pub path: ControlPath,
    /// A status to publish at once.
    pub status: Option<&'static str>,
    /// The meter has just gone silent.
    pub went_silent: bool,
}

/// A [`Turn`] as a mathematical value.
pub struct Asked {
    pub reaction: Reaction,
    pub path: ControlPath,
    pub status: Option<Seq<char>>,
    pub went_silent: bool,
}

impl View for Turn {
    type V = Asked;

    open spec fn view(&self) -> Asked {
        Asked {
            reaction: self.step@,
            path: self.path,
            status: match self.status {
                Some(status) => Some(status@),
                None => None,
            },
            went_silent: self.went_silent,
        }
    }
}

/// What an event asks for, given what the engine makes of it: a silence is a
/// matter of the failsafe, and the end of one is published at once.
pub open spec fn asked(event: Happening, reaction: Reaction) -> Asked {
    Asked {
        reaction,
        path: if event is MqttTimeout {
            ControlPath::Failsafe
        } else {
            ControlPath::Objective
        },
        status: if event is Meter {
            reaction.status
        } else {
            None
        },
        went_silent: event is MqttTimeout && reaction.status is Some,
    }
}

impl Coordinator {
    /// A coordinator with a world that knows nothing yet.
    pub fn start(config: &Config, device_id: DeviceId, clock: &Clock, now: Timestamp) -> (out: Self)
        ensures
            out.engine.settings() == (Settings {
                tuning: config.spec_session(),
                mqtt_timeout: config.mqtt_timeout,
            }),
            is_unknown(out.engine.snapshot().house),
            fresh_state(config.spec_session(), *clock, out.engine.snapshot().controller),
            !out.engine.snapshot().timed_out,
            out.device_id == device_id,
            out.mqtt_timeout == config.mqtt_timeout,
            out.deadline == after(now, config.mqtt_timeout),
    {
        let controller = Controller::from_config(config, clock);
        let engine = Engine::new(controller, World::new(), config.mqtt_timeout);
        Coordinator {
            engine,
            device_id,
            mqtt_timeout: config.mqtt_timeout,
            deadline: later(now, config.mqtt_timeout),
        }
    }

    /// The event of a reading of the battery, at startup or from a poll.
    pub fn observed(&self, clock: Clock, state: BatteryState) -> (out: Event)
        ensures
            out@ == (Happening::DeviceUpdate {
                at: clock,
                id: self.device_id@,
                measurement: Measurement::Battery(state),
            }),
    {
        Event::DeviceUpdate {
            at: clock,
            id: self.device_id.clone(),
            measurement: Measurement::Battery(state),
        }
    }

    /// The event of a meter reading, which moves the deadline.
    pub fn metered(&mut self, clock: Clock, fed: MqttEvent, now: Timestamp) -> (out: Event)
        ensures
            fed matches MqttEvent::Meter(seen) && out@ == (Happening::Meter {
                at: clock,
                grid: seen.grid,
                solar: seen.solar,
            }),
            final(self).engine == old(self).engine,
            final(self).device_id == old(self).device_id,
            final(self).mqtt_timeout == old(self).mqtt_timeout,
            final(self).deadline == after(now, old(self).mqtt_timeout),
    {
        self.deadline = later(now, self.mqtt_timeout);
        match fed {
            MqttEvent::Meter(seen) => Event::Meter {
                at: clock,
                grid: seen.grid,
                solar: seen.solar,
            },
        }
    }

    /// The event of a deadline that passed, which moves it too: a silence that
    /// lasts is reported at that pace, and never spins.
    pub fn silent(&mut self, clock: Clock, now: Timestamp) -> (out: Event)
        ensures
            out@ == (Happening::MqttTimeout { at: clock }),
            final(self).engine == old(self).engine,
            final(self).device_id == old(self).device_id,
            final(self).mqtt_timeout == old(self).mqtt_timeout,
            final(self).deadline == after(now, old(self).mqtt_timeout),
    {
        self.deadline = later(now, self.mqtt_timeout);
        Event::MqttTimeout { at: clock }
    }

    /// Takes in an event, which was recorded before.
    pub fn fold(&mut self, event: &Event) -> (out: Turn)
        ensures
            final(self).device_id == old(self).device_id,
            final(self).mqtt_timeout == old(self).mqtt_timeout,
            final(self).deadline == old(self).deadline,
            final(self).engine.settings() == old(self).engine.settings(),
            ({
                let (state, reaction) = stepped(
                    old(self).engine.settings(),
                    old(self).engine.snapshot(),
                    event@,
                );
                &&& final(self).engine.snapshot() == state
                &&& out@ == asked(event@, reaction)
            }),
    {
        let step = self.engine.step(event);
        match event {
            Event::Meter { .. } => {
                let status = step.status;
                Turn { step, path: ControlPath::Objective, status, went_silent: false }
            },
            Event::DeviceUpdate { .. } => Turn {
                step,
                path: ControlPath::Objective,
                status: None,
                went_silent: false,
            },
            Event::MqttTimeout { .. } => {
                let went_silent = step.status.is_some();
                Turn { step, path: ControlPath::Failsafe, status: None, went_silent }
            },
        }
    }

    /// Publishes what became of a decision, once it has been carried out.
    pub fn report<P: Publisher>(
        &self,
        publisher: &mut P,
        prefix: &str,
        path: ControlPath,
        decision: &ControlDecision,
        outcomes: &[Outcome],
    ) -> (out: (Option<Accepted>, [Accepted; 4], [Accepted; 2]))
        ensures
            out.0 is Some <==> status_of(path, outcomes@) is Some,
            final(publisher).log() == old(publisher).log() + (match status_of(path, outcomes@) {
                Some(status) => told(status_reading(prefix@, status), out.0),
                None => Seq::empty(),
            }) + exchange(decision_readings(prefix@, decision@), out.1@) + exchange(
                cycle_readings(
                    prefix@,
                    CycleCounts {
                        daily_transitions: self.engine.snapshot().controller.daily_transitions,
                        daily_cooldown_suppressions: self.engine.snapshot().controller.daily_cooldown_suppressions,
                    },
                ),
                out.2@,
            ),
    {
        let status = match status_for(path, outcomes) {
            Some(status) => Some(publish_status(publisher, prefix, status)),
            None => None,
        };
        let figures = publish_decision(publisher, prefix, decision);
        let counts = self.engine.cycle_counts();
        let cycles = publish_cycle_counts(publisher, prefix, &counts);
        (status, figures, cycles)
    }
}

// --- what the loop hears -------------------------------------------------------

/// What the loop waits for.
pub enum Heard {
    /// A signal asks the process to stop.
    Stop(StopReason),
    /// Nothing feeds the loop any more.
    FeedersGone,
    /// A source has fed a reading.
    Fed(MqttEvent),
    /// The deadline has passed.
    Silence,
    /// The battery was polled.
    Polled(Result<BatteryReading, PollError>),
}

/// What the process is to do.
#[derive(Debug)]
pub enum Action {
    /// Record the bytes of a poll as they came.
    Capture(RawCapture),
    /// Record an event.
    Record(Event),
    /// Publish a status.
    Announce(&'static str),
    /// Say in the log that the meter has gone silent.
    WarnOfSilence,
    /// Say in the log that a poll failed.
    WarnOfPoll(String),
    /// Take in what a poll measured, and publish it.
    Measure(BatteryReading),
    /// Send the commands, record what became of each, and report it.
    Carry {
        at: Timestamp,
        path: ControlPath,
        decision: ControlDecision,
        directives: Vec<Directive>,
    },
    /// Leave the loop.
    Leave(Option<StopReason>),
}

/// An [`Action`] as a mathematical value.
pub enum Deed {
    Capture { kind: Seq<char>, body: Seq<char> },
    Record(Happening),
    Announce(Seq<char>),
    WarnOfSilence,
    WarnOfPoll(Seq<char>),
    Measure { state: BatteryState, telemetry: BatteryTelemetry },
    Carry { at: Timestamp, path: ControlPath, decision: Decision, orders: Seq<Order> },
    Leave(Option<StopReason>),
}

impl View for Action {
    type V = Deed;

    open spec fn view(&self) -> Deed {
        match *self {
            Action::Capture(raw) => Deed::Capture { kind: raw.kind@, body: raw.body@ },
            Action::Record(event) => Deed::Record(event@),
            Action::Announce(status) => Deed::Announce(status@),
            Action::WarnOfSilence => Deed::WarnOfSilence,
            Action::WarnOfPoll(error) => Deed::WarnOfPoll(error@),
            Action::Measure(reading) => Deed::Measure {
                state: reading.state,
                telemetry: reading.telemetry,
            },
            Action::Carry { at, path, decision, directives } => Deed::Carry {
                at,
                path,
                decision: decision@,
                orders: orders(directives@),
            },
            Action::Leave(reason) => Deed::Leave(reason),
        }
    }
}

pub open spec fn deeds_of(actions: Seq<Action>) -> Seq<Deed> {
    actions.map_values(|a: Action| a@)
}

/// The event in what was heard.
pub open spec fn event_in(heard: Heard, id: Seq<char>, clock: Clock) -> Option<Happening> {
    match heard {
        Heard::Fed(MqttEvent::Meter(seen)) => Some(
            Happening::Meter { at: clock, grid: seen.grid, solar: seen.solar },
        ),
        Heard::Silence => Some(Happening::MqttTimeout { at: clock }),
        Heard::Polled(Ok(reading)) => Some(
            Happening::DeviceUpdate {
                at: clock,
                id,
                measurement: Measurement::Battery(reading.state),
            },
        ),
        _ => None,
    }
}

/// The bytes of a poll, where there are any.
pub open spec fn captured(raw: Option<RawCapture>) -> Seq<Deed> {
    match raw {
        Some(raw) => seq![Deed::Capture { kind: raw.kind@, body: raw.body@ }],
        None => Seq::empty(),
    }
}

/// What an event that was taken in leads to.
pub open spec fn consequences(event: Happening, reaction: Reaction) -> Seq<Deed> {
    let asked = asked(event, reaction);
    let status: Seq<Deed> = match asked.status {
        Some(status) => seq![Deed::Announce(status)],
        None => Seq::empty(),
    };
    let warning: Seq<Deed> = if asked.went_silent {
        seq![Deed::WarnOfSilence]
    } else {
        Seq::empty()
    };
    let carry: Seq<Deed> = match reaction.decision {
        Some(decision) => seq![
            Deed::Carry {
                at: event.clock().now,
                path: asked.path,
                decision,
                orders: reaction.orders,
            },
        ],
        None => Seq::empty(),
    };
    status + warning + carry
}

/// What is to be done about what was heard, in this order.
pub open spec fn answer(
    settings: Settings,
    state: Snapshot,
    id: Seq<char>,
    heard: Heard,
    clock: Clock,
) -> Seq<Deed> {
    match heard {
        Heard::Stop(reason) => seq![Deed::Leave(Some(reason))],
        Heard::FeedersGone => seq![Deed::Leave(None)],
        Heard::Polled(Err(e)) => captured(e.raw) + seq![Deed::WarnOfPoll(e.error@)],
        _ => {
            let event = event_in(heard, id, clock)->0;
            let poll: Seq<Deed> = match heard {
                Heard::Polled(Ok(reading)) => captured(reading.raw) + seq![
                    Deed::Measure { state: reading.state, telemetry: reading.telemetry },
                ],
                _ => Seq::empty(),
            };
            poll + seq![Deed::Record(event)] + consequences(
                event,
                stepped(settings, state, event).1,
            )
        },
    }
}

/// What is known of the house once something was heard.
pub open spec fn known_after(
    settings: Settings,
    state: Snapshot,
    id: Seq<char>,
    heard: Heard,
    clock: Clock,
) -> Snapshot {
    match event_in(heard, id, clock) {
        Some(event) => stepped(settings, state, event).0,
        None => state,
    }
}

/// A reading and a silence move the deadline.
pub open spec fn moves_deadline(heard: Heard) -> bool {
    heard is Fed || heard is Silence
}

fn capture_first(actions: &mut Vec<Action>, raw: Option<RawCapture>)
    ensures
        deeds_of(final(actions)@) == deeds_of(old(actions)@) + captured(raw),
{
    let ghost before = actions@;
    match raw {
        Some(raw) => {
            let action = Action::Capture(raw);
            actions.push(action);
            assert(deeds_of(actions@) =~= deeds_of(before) + captured(Some(raw)));
        },
        None => {
            assert(deeds_of(actions@) =~= deeds_of(before) + captured(None));
        },
    }
}

impl Coordinator {
    /// Takes an event in, and says that it is to be recorded, and what it
    /// leads to.
    fn take_in(&mut self, actions: &mut Vec<Action>, event: Event)
        ensures
            final(self).device_id == old(self).device_id,
            final(self).mqtt_timeout == old(self).mqtt_timeout,
            final(self).deadline == old(self).deadline,
            final(self).engine.settings() == old(self).engine.settings(),
            ({
                let (state, reaction) = stepped(
                    old(self).engine.settings(),
                    old(self).engine.snapshot(),
                    event@,
                );
                &&& final(self).engine.snapshot() == state
                &&& deeds_of(final(actions)@) == deeds_of(old(actions)@) + seq![
                    Deed::Record(event@),
                ] + consequences(event@, reaction)
            }),
    {
        let ghost before = deeds_of(actions@);
        let turn = self.fold(&event);
        let at = event.at();
        let ghost happened = event@;
        let ghost asked = turn@;
        actions.push(Action::Record(event));
        assert(deeds_of(actions@) =~= before.push(Deed::Record(happened)));
        if let Some(status) = turn.status {
            let ghost so_far = deeds_of(actions@);
            actions.push(Action::Announce(status));
            assert(deeds_of(actions@) =~= so_far.push(Deed::Announce(status@)));
        }
        if turn.went_silent {
            let ghost so_far = deeds_of(actions@);
            actions.push(Action::WarnOfSilence);
            assert(deeds_of(actions@) =~= so_far.push(Deed::WarnOfSilence));
        }
        let Turn { step, path, status: _, went_silent: _ } = turn;
        let Step { directives, decision, status: _ } = step;
        if let Some(decision) = decision {
            let ghost so_far = deeds_of(actions@);
            let ghost carry = Deed::Carry {
                at,
                path,
                decision: decision@,
                orders: orders(directives@),
            };
            actions.push(Action::Carry { at, path, decision, directives });
            assert(deeds_of(actions@) =~= so_far.push(carry));
        }
        assert(deeds_of(actions@) =~= before + seq![Deed::Record(happened)] + consequences(
            happened,
            asked.reaction,
        ));
    }

    /// Says what is to be done about what was heard, in order. `now` is on the
    /// clock of the deadline.
    pub fn hear(&mut self, heard: Heard, clock: Clock, now: Timestamp) -> (out: Vec<Action>)
        ensures
            deeds_of(out@) == answer(
                old(self).engine.settings(),
                old(self).engine.snapshot(),
                old(self).device_id@,
                heard,
                clock,
            ),
            final(self).engine.snapshot() == known_after(
                old(self).engine.settings(),
                old(self).engine.snapshot(),
                old(self).device_id@,
                heard,
                clock,
            ),
            final(self).engine.settings() == old(self).engine.settings(),
            final(self).device_id == old(self).device_id,
            final(self).mqtt_timeout == old(self).mqtt_timeout,
            final(self).deadline == if moves_deadline(heard) {
                after(now, old(self).mqtt_timeout)
            } else {
                old(self).deadline
            },
    {
        let ghost whole = answer(
            old(self).engine.settings(),
            old(self).engine.snapshot(),
            old(self).device_id@,
            heard,
            clock,
        );
        let mut out: Vec<Action> = Vec::new();
        assert(deeds_of(out@) =~= Seq::<Deed>::empty());
        match heard {
            Heard::Stop(reason) => {
                out.push(Action::Leave(Some(reason)));
            },
            Heard::FeedersGone => {
                out.push(Action::Leave(None));
            },
            Heard::Fed(fed) => {
                let event = self.metered(clock, fed, now);
                self.take_in(&mut out, event);
            },
            Heard::Silence => {
                let event = self.silent(clock, now);
                self.take_in(&mut out, event);
            },
            Heard::Polled(Ok(reading)) => {
                let event = self.observed(clock, reading.state);
                let BatteryReading { state, telemetry, raw } = reading;
                capture_first(&mut out, raw);
                let ghost so_far = deeds_of(out@);
                out.push(Action::Measure(BatteryReading { state, telemetry, raw: None }));
                assert(deeds_of(out@) =~= so_far.push(Deed::Measure { state, telemetry }));
                self.take_in(&mut out, event);
            },
            Heard::Polled(Err(e)) => {
                let PollError { raw, error } = e;
                capture_first(&mut out, raw);
                let ghost so_far = deeds_of(out@);
                let ghost text = error@;
                out.push(Action::WarnOfPoll(error));
                assert(deeds_of(out@) =~= so_far.push(Deed::WarnOfPoll(text)));
            },
        }
        assert(deeds_of(out@) =~= whole);
        out
    }
}

// --- what became of a decision -------------------------------------------------

/// The status after commands were sent: a failure anywhere takes precedence. None
/// where nothing was sent.
pub open spec fn status_of(path: ControlPath, outcomes: Seq<Outcome>) -> Option<Seq<char>> {
    if outcomes.len() == 0 {
        None
    } else if exists|i: int|
        0 <= i < outcomes.len() && (#[trigger] outcomes[i]).applied == Applied::Error {
        Some(path.spec_err_status())
    } else {
        Some(path.spec_ok_status())
    }
}

/// The status after commands were sent.
pub fn status_for(path: ControlPath, outcomes: &[Outcome]) -> (out: Option<&'static str>)
    ensures
        match out {
            Some(status) => status_of(path, outcomes@) == Some(status@),
            None => status_of(path, outcomes@) is None,
        },
{
    if outcomes.len() == 0 {
        return None;
    }
    if all_applied(outcomes) {
        Some(path.ok_status())
    } else {
        let ghost bad = choose|i: int|
            0 <= i < outcomes@.len() && (#[trigger] outcomes@[i]).applied != Applied::Done;
        assert(outcomes@[bad].applied == Applied::Error);
        Some(path.err_status())
    }
}

// --- polls ---------------------------------------------------------------------

/// The figures that a dashboard shows of the battery.
#[derive(Debug, Clone, Copy, PartialEq, Eq, Structural)]
pub struct DashboardTelemetry {
    pub rte: Option<Percent>,
    pub usable: KiloWattHours,
    pub capacity: KiloWattHours,
}

/// Everything that a poll advances and that no decision reads.
#[derive(Debug)]
pub struct PollTelemetry {
    pub rte: RteTracker,
    /// A report without pack data leaves the last known set in place.
    pub pack_capacities: Vec<WattHours>,
    /// The device's own floor.
    pub min_soc: Soc,
}

/// The figures at a state of charge.
pub open spec fn is_figures(telemetry: PollTelemetry, soc: int, out: DashboardTelemetry) -> bool {
    &&& match out.rte {
        Some(percent) => telemetry.rte.spec_rte() == Some(percent@),
        None => telemetry.rte.spec_rte() is None,
    }
    &&& out.usable@ == usable(
        WattHours::spec_sum(telemetry.pack_capacities@).parts as int,
        soc,
        telemetry.min_soc@,
        telemetry.rte.spec_rte(),
    )
    &&& out.capacity@ == Some(
        WattHours::spec_sum(telemetry.pack_capacities@).spec_micro_kwh(),
    )
}

/// The telemetry once a poll is taken in.
pub open spec fn recorded(
    before: PollTelemetry,
    report: BatteryTelemetry,
    now: Timestamp,
    unix: Timestamp,
    after: PollTelemetry,
) -> bool {
    &&& after.rte.samples@ == pruned(
        sampled(before.rte, now, unix, report.charge, report.discharge),
        saturated_i64(now.ms - WINDOW_MS),
    )
    &&& after.rte.last_sample_time == Some(now)
    &&& after.rte.last_sample_unix == Some(unix)
    &&& after.rte.last_charge_power == report.charge
    &&& after.rte.last_discharge_power == report.discharge
    &&& after.pack_capacities@ == match report.pack_capacities {
        Some(packs) => packs@,
        None => before.pack_capacities@,
    }
    &&& after.min_soc == match report.min_soc {
        Some(floor) => floor,
        None => before.min_soc,
    }
}

/// How a sink answered to what a poll publishes.
#[derive(Debug)]
pub struct PollAnswers {
    pub rte: [Accepted; 3],
    pub packs: Vec<PackAnswer>,
    pub enclosure: Option<Accepted>,
    pub calibrating: Accepted,
    pub soc: Accepted,
    pub power: [Accepted; 2],
}

/// What a sink was handed of a poll, in this order.
pub open spec fn poll_told(
    prefix: Seq<char>,
    reading: BatteryReading,
    figures: DashboardTelemetry,
    answers: PollAnswers,
) -> Seq<Sent> {
    let report = reading.telemetry;
    exchange(rte_readings(prefix, figures.rte, figures.usable, figures.capacity), answers.rte@)
        + temperatures_told(
        prefix,
        report.enclosure_temp,
        report.pack_temps@,
        answers.packs@,
        answers.enclosure,
    ) + seq![
        Sent {
            notice: calibrating_reading(prefix, reading.state.soc_calibrating),
            answer: answers.calibrating,
        },
        Sent { notice: soc_reading(prefix, reading.state.soc@), answer: answers.soc },
    ] + exchange(power_readings(prefix, report.charge, report.discharge), answers.power@)
}

impl PollTelemetry {
    pub fn new(rte: RteTracker, pack_capacities: Vec<WattHours>, min_soc: Soc) -> (out: Self)
        ensures
            out == (PollTelemetry { rte, pack_capacities, min_soc }),
    {
        PollTelemetry { rte, pack_capacities, min_soc }
    }

    /// What is known once the startup handshake has given a first report.
    pub fn first(rte: RteTracker, report: BatteryTelemetry) -> (out: Self)
        ensures
            out.rte == rte,
            out.pack_capacities@ == match report.pack_capacities {
                Some(packs) => packs@,
                None => Seq::<WattHours>::empty(),
            },
            match report.min_soc {
                Some(floor) => out.min_soc == floor,
                None => out.min_soc@ == 0,
            },
    {
        let pack_capacities = match report.pack_capacities {
            Some(packs) => packs,
            None => Vec::new(),
        };
        let min_soc = match report.min_soc {
            Some(floor) => floor,
            None => Soc::zero(),
        };
        PollTelemetry { rte, pack_capacities, min_soc }
    }

    pub fn pack_count(&self) -> (out: usize)
        ensures
            out == self.pack_capacities@.len(),
    {
        self.pack_capacities.len()
    }

    /// Efficiency, usable energy and pack capacity at `soc`.
    pub fn figures(&self, soc: Soc) -> (out: DashboardTelemetry)
        ensures
            is_figures(*self, soc@, out),
    {
        DashboardTelemetry {
            rte: self.rte.rte_percent(),
            usable: self.rte.usable_kwh(soc, self.min_soc, self.pack_capacities.as_slice()),
            capacity: WattHours::sum(self.pack_capacities.as_slice()).to_kwh(),
        }
    }

    /// Takes in one poll.
    fn record(&mut self, report: &BatteryTelemetry, now: Timestamp, unix: Timestamp)
        ensures
            recorded(*old(self), *report, now, unix, *final(self)),
    {
        self.rte.record_at(now, unix, report.charge, report.discharge);
        if let Some(packs) = &report.pack_capacities {
            let mut copies: Vec<WattHours> = Vec::new();
            for i in 0..packs.len()
                invariant
                    copies@ == packs@.take(i as int),
            {
                copies.push(packs[i]);
                assert(copies@ =~= packs@.take(i + 1));
            }
            assert(copies@ =~= packs@);
            self.pack_capacities = copies;
        }
        if let Some(min_soc) = report.min_soc {
            self.min_soc = min_soc;
        }
    }

    /// Takes in one poll, and publishes what it came to.
    pub fn record_and_publish<P: Publisher>(
        &mut self,
        publisher: &mut P,
        announcer: &mut Announcer,
        prefix: &str,
        reading: &BatteryReading,
        now: Timestamp,
        unix: Timestamp,
    ) -> (out: (DashboardTelemetry, PollAnswers))
        ensures
            recorded(*old(self), reading.telemetry, now, unix, *final(self)),
            is_figures(*final(self), reading.state.soc@, out.0),
            out.1.packs@.len() == reading.telemetry.pack_temps@.len(),
            out.1.enclosure is Some <==> reading.telemetry.enclosure_temp is Some,
            packs_asked_where_due(
                old(announcer)@,
                reading.telemetry.pack_temps@,
                out.1.packs@,
                reading.telemetry.pack_temps@.len() as int,
            ),
            final(announcer)@ == packs_known_after(
                old(announcer)@,
                reading.telemetry.pack_temps@,
                out.1.packs@,
                reading.telemetry.pack_temps@.len() as int,
            ),
            final(publisher).log() == old(publisher).log() + poll_told(
                prefix@,
                *reading,
                out.0,
                out.1,
            ),
    {
        self.record(&reading.telemetry, now, unix);
        let figures = self.figures(reading.state.soc);
        let rte = publish_rte(publisher, prefix, figures.rte, figures.usable, figures.capacity);
        let (packs, enclosure) = publish_temperatures(
            publisher,
            announcer,
            prefix,
            reading.telemetry.enclosure_temp,
            reading.telemetry.pack_temps.as_slice(),
        );
        let calibrating = publish_soc_calibrating(
            publisher,
            prefix,
            reading.state.soc_calibrating,
        );
        let soc = publish_battery_soc(publisher, prefix, reading.state.soc);
        let power = publish_battery_power(
            publisher,
            prefix,
            reading.telemetry.charge,
            reading.telemetry.discharge,
        );
        (figures, PollAnswers { rte, packs, enclosure, calibrating, soc, power })
    }
}

// --- what is recorded of a poll ------------------------------------------------

/// The bytes of a poll that are to be recorded, whether or not it could be
/// read.
pub fn capture(polled: &Result<BatteryReading, PollError>) -> (out: Option<&RawCapture>)
    ensures
        match (out, *polled) {
            (Some(raw), Ok(reading)) => reading.raw == Some(*raw),
            (Some(raw), Err(e)) => e.raw == Some(*raw),
            (None, Ok(reading)) => reading.raw is None,
            (None, Err(e)) => e.raw is None,
        },
{
    match polled {
        Ok(reading) => reading.raw.as_ref(),
        Err(e) => e.raw.as_ref(),
    }
}

// --- wiring --------------------------------------------------------------------

/// The topic of the meter and the phase of the solar inverter. A run without
/// such a meter listens to no topic: an empty one matches no message.
pub fn meter_feed(config: &Config) -> (out: (String, SolarPhase))
    ensures
        match config.shelly {
            Some(shelly) => out.0@ == shelly.topic@ && out.1 == shelly.solar_phase,
            None => out.0@.len() == 0 && out.1 == SolarPhase::A,
        },
{
    match &config.shelly {
        Some(shelly) => (shelly.topic.clone(), shelly.solar_phase),
        None => {
            let topic = String::new();
            (topic, SolarPhase::A)
        },
    }
}

// --- what a dashboard starts from ----------------------------------------------

/// What was produced at a moment, and on which day of the year that is where the
/// battery stands.
#[derive(Debug, Clone, Copy, PartialEq, Eq, Structural)]
pub struct Produced {
    pub at: Timestamp,
    pub day_ordinal: u32,
    pub solar: SolarPower,
}

/// The day of the year at a moment, by the timezone's clocks.
pub open spec fn local_ordinal(timezone: Seq<char>, at: Timestamp) -> Option<u32> {
    match local_time(timezone, at) {
        Some(local) => match day_number(utc_day(local)) {
            Some(date) => match year_and_ordinal(date.day) {
                Some((_, ordinal)) => Some(ordinal),
                None => None,
            },
            None => None,
        },
        None => None,
    }
}

/// What the first `n` rows say of the sun. A moment that the timezone does not
/// reach is left out.
pub open spec fn produced(rows: Seq<(i64, SolarPower)>, timezone: Seq<char>, n: int) -> Seq<
    Produced,
>
    decreases n,
{
    if n <= 0 {
        Seq::empty()
    } else {
        let front = produced(rows, timezone, n - 1);
        let at = Timestamp { ms: rows[n - 1].0 };
        match local_ordinal(timezone, at) {
            Some(day_ordinal) => front.push(Produced { at, day_ordinal, solar: rows[n - 1].1 }),
            None => front,
        }
    }
}

/// Turns the solar readings since midnight into the history that a dashboard
/// starts with, so that a restart does not blank the day.
pub fn seed_actual_solar(rows: &Vec<(i64, SolarPower)>, timezone: &str) -> (out: Vec<Produced>)
    ensures
        out@ == produced(rows@, timezone@, rows@.len() as int),
{
    let mut out: Vec<Produced> = Vec::new();
    for i in 0..rows.len()
        invariant
            out@ == produced(rows@, timezone@, i as int),
    {
        let at = Timestamp::from_millis(rows[i].0);
        if let Some(clock) = Clock::at(at, timezone) {
            out.push(Produced { at, day_ordinal: clock.day_ordinal, solar: rows[i].1 });
        }
    }
    out
}

// --- shutting down -------------------------------------------------------------

/// One stage of a shutdown.
#[derive(Debug, Clone, Copy, PartialEq, Eq, Structural)]
pub enum Stage {
    /// Stop accepting messages, and wait for the queue, up to the deadline.
    DrainPublisher,
    /// Stop every task that feeds the loop, and wait until each is gone.
    StopFeeders,
    /// Give up the last sender of the journal.
    ReleaseJournal,
    /// Wait for the journal's writer, up to the deadline.
    DrainJournal,
}

/// The stages of a shutdown, in the order that loses no rows and does not
/// stall. The publisher drains while the feeders still run, since one of them
/// moves the bytes. The journal's writer ends only once every sender is gone, and
/// each feeder holds one.
pub open spec fn stages(has_broker: bool, has_writer: bool) -> Seq<Stage> {
    let broker: Seq<Stage> = if has_broker {
        seq![Stage::DrainPublisher]
    } else {
        Seq::empty()
    };
    let writer: Seq<Stage> = if has_writer {
        seq![Stage::DrainJournal]
    } else {
        Seq::empty()
    };
    broker + seq![Stage::StopFeeders, Stage::ReleaseJournal] + writer
}

/// The stages of a shutdown.
pub fn shut_down(has_broker: bool, has_writer: bool) -> (out: Vec<Stage>)
    ensures
        out@ == stages(has_broker, has_writer),
{
    let mut out: Vec<Stage> = Vec::new();
    if has_broker {
        out.push(Stage::DrainPublisher);
    }
    out.push(Stage::StopFeeders);
    out.push(Stage::ReleaseJournal);
    if has_writer {
        out.push(Stage::DrainJournal);
    }
    assert(out@ =~= stages(has_broker, has_writer));
    out
}

/// How a wait for a task came out.
#[derive(Debug)]
pub enum Drained {
    /// It finished.
    Finished,
    /// It had ended early, with an error.
    EndedEarly(String),
    /// It did not finish before the deadline.
    TimedOut,
}

/// What is said of a publisher's drain. One that finished has said its own.
pub open spec fn publisher_report(
    drained: Drained,
    queued: int,
    dropped: int,
    failed: int,
) -> Option<Seq<char>> {
    match drained {
        Drained::Finished => None,
        Drained::EndedEarly(e) => Some(
            "MQTT delivery task ended early ("@ + e@ + ") — "@ + decimal(dropped as nat)
                + " messages dropped this session"@,
        ),
        Drained::TimedOut => Some(
            "MQTT drain did not finish in "@ + decimal(DRAIN_DEADLINE_SECS as nat) + "s — "@
                + decimal(queued as nat) + " messages were queued when it began, "@ + decimal(
                dropped as nat,
            ) + " dropped and "@ + decimal(failed as nat) + " failed this session"@,
        ),
    }
}

/// What is said of a publisher's drain.
pub fn publisher_drained(drained: &Drained, queued: usize, dropped: u64, failed: u64) -> (out:
    Option<String>)
    ensures
        match out {
            Some(report) => publisher_report(
                *drained,
                queued as int,
                dropped as int,
                failed as int,
            ) == Some(report@),
            None => publisher_report(
                *drained,
                queued as int,
                dropped as int,
                failed as int,
            ) is None,
        },
{
    match drained {
        Drained::Finished => None,
        Drained::EndedEarly(e) => {
            let mut out = "MQTT delivery task ended early (".to_owned();
            out.append(e.as_str());
            out.append(") — ");
            text::push_decimal(&mut out, dropped as u128);
            out.append(" messages dropped this session");
            Some(out)
        },
        Drained::TimedOut => {
            let mut out = "MQTT drain did not finish in ".to_owned();
            text::push_decimal(&mut out, DRAIN_DEADLINE_SECS as u128);
            out.append("s — ");
            text::push_decimal(&mut out, queued as u128);
            out.append(" messages were queued when it began, ");
            text::push_decimal(&mut out, dropped as u128);
            out.append(" dropped and ");
            text::push_decimal(&mut out, failed as u128);
            out.append(" failed this session");
            Some(out)
        },
    }
}

// --- laws ----------------------------------------------------------------------

/// Whatever an event leads to comes after the event is to be recorded: a crash
/// in the middle of a command still leaves the cause of it on record.
pub proof fn the_cause_is_recorded_first(
    settings: Settings,
    state: Snapshot,
    id: Seq<char>,
    heard: Heard,
    clock: Clock,
    i: int,
)
    requires
        0 <= i < answer(settings, state, id, heard, clock).len(),
        answer(settings, state, id, heard, clock)[i] is Carry || answer(
            settings,
            state,
            id,
            heard,
            clock,
        )[i] is Announce,
    ensures
        event_in(heard, id, clock) matches Some(event) && exists|j: int|
            0 <= j < i && #[trigger] answer(settings, state, id, heard, clock)[j]
                == Deed::Record(event),
{
    let whole = answer(settings, state, id, heard, clock);
    let event = event_in(heard, id, clock)->0;
    let poll: Seq<Deed> = match heard {
        Heard::Polled(Ok(reading)) => captured(reading.raw) + seq![
            Deed::Measure { state: reading.state, telemetry: reading.telemetry },
        ],
        _ => Seq::empty(),
    };
    if let Heard::Polled(Err(e)) = heard {
        assert(whole[i] is Capture || whole[i] is WarnOfPoll);
    }
    assert(event_in(heard, id, clock) is Some);
    assert(whole[poll.len() as int] == Deed::Record(event));
    if i < poll.len() {
        assert(whole[i] == poll[i]);
    }
}

/// The bytes of a poll are recorded before anything else is done about it.
pub proof fn a_capture_comes_first(
    settings: Settings,
    state: Snapshot,
    id: Seq<char>,
    heard: Heard,
    clock: Clock,
    i: int,
)
    requires
        0 <= i < answer(settings, state, id, heard, clock).len(),
    ensures
        answer(settings, state, id, heard, clock)[i] is Capture <==> i == 0 && (heard matches
            Heard::Polled(polled) && match polled {
            Ok(reading) => reading.raw is Some,
            Err(e) => e.raw is Some,
        }),
{
}

/// The loop is left when it is asked to stop or nothing feeds it, and for no
/// other reason.
pub proof fn only_a_stop_leaves_the_loop(
    settings: Settings,
    state: Snapshot,
    id: Seq<char>,
    heard: Heard,
    clock: Clock,
    i: int,
)
    requires
        0 <= i < answer(settings, state, id, heard, clock).len(),
    ensures
        answer(settings, state, id, heard, clock)[i] is Leave <==> heard is Stop || heard
            is FeedersGone,
{
}

/// A poll decides nothing.
pub proof fn a_poll_commands_nothing(
    settings: Settings,
    state: Snapshot,
    id: Seq<char>,
    polled: Result<BatteryReading, PollError>,
    clock: Clock,
    i: int,
)
    requires
        0 <= i < answer(settings, state, id, Heard::Polled(polled), clock).len(),
    ensures
        !(answer(settings, state, id, Heard::Polled(polled), clock)[i] is Carry),
{
    if let Ok(reading) = polled {
        let event = event_in(Heard::Polled(polled), id, clock)->0;
        a_device_update_decides_nothing(settings, state, event);
    }
}

/// The feeders stop after the publisher has drained and before the journal's
/// writer is waited for, and they always stop.
pub proof fn feeders_stop_between_the_drains(has_broker: bool, has_writer: bool, i: int)
    requires
        0 <= i < stages(has_broker, has_writer).len(),
    ensures
        ({
            let plan = stages(has_broker, has_writer);
            let feeders: int = if has_broker {
                1
            } else {
                0
            };
            &&& plan[feeders] == Stage::StopFeeders
            &&& plan[feeders + 1] == Stage::ReleaseJournal
            &&& plan[i] == Stage::DrainPublisher ==> i < feeders
            &&& plan[i] == Stage::DrainJournal ==> i > feeders + 1
            &&& plan[i] == Stage::StopFeeders ==> i == feeders
        }),
{
}

/// A failure anywhere is what the status says, however much else succeeded.
pub proof fn a_failure_takes_precedence(path: ControlPath, outcomes: Seq<Outcome>, i: int)
    requires
        0 <= i < outcomes.len(),
        outcomes[i].applied == Applied::Error,
    ensures
        status_of(path, outcomes) == Some(path.spec_err_status()),
{
}

/// A silence never spins: once the deadline has passed and was taken in, it lies
/// in the future again, by the whole timeout.
pub proof fn a_deadline_that_passed_is_moved(now: Timestamp, timeout: Duration)
    requires
        timeout@ > 0,
        now.ms + timeout@ <= i64::MAX,
    ensures
        after(now, timeout).ms > now.ms,
        after(now, timeout).ms == now.ms + timeout@,
{
}

/// Only a silence is the failsafe's, and only the end of one is published at
/// once.
pub proof fn a_silence_is_the_failsafes(event: Happening, reaction: Reaction)
    ensures
        asked(event, reaction).path == ControlPath::Failsafe <==> event is MqttTimeout,
        asked(event, reaction).status is Some ==> event is Meter && reaction.status is Some,
{
}

/// What is heard becomes the event that it is: a reading with what the meter said, a
/// silence, or what the polled battery said of itself under its own name, each at
/// the time that it was heard. Nothing else is an event.
pub proof fn what_is_heard_becomes_its_event(heard: Heard, id: Seq<char>, clock: Clock)
    ensures
        heard matches Heard::Fed(MqttEvent::Meter(seen)) ==> event_in(heard, id, clock) == Some(
            Happening::Meter { at: clock, grid: seen.grid, solar: seen.solar },
        ),
        heard is Silence ==> event_in(heard, id, clock) == Some(
            Happening::MqttTimeout { at: clock },
        ),
        heard matches Heard::Polled(Ok(reading)) ==> event_in(heard, id, clock) == Some(
            Happening::DeviceUpdate {
                at: clock,
                id,
                measurement: Measurement::Battery(reading.state),
            },
        ),
        heard is Stop || heard is FeedersGone ==> event_in(heard, id, clock) is None,
        heard matches Heard::Polled(Err(_)) ==> event_in(heard, id, clock) is None,
{
}

/// A reading is recorded; then the end of an outage is announced, if there was one;
/// then what was decided is carried out, if anything was, as the objective's.
pub proof fn a_reading_is_answered_in_order(
    settings: Settings,
    state: Snapshot,
    id: Seq<char>,
    seen: MqttEvent,
    clock: Clock,
)
    ensures
        ({
            let heard = Heard::Fed(seen);
            let event = event_in(heard, id, clock)->0;
            let reaction = stepped(settings, state, event).1;
            let deeds = answer(settings, state, id, heard, clock);
            let first = if state.timed_out {
                seq![Deed::Record(event), Deed::Announce("operational"@)]
            } else {
                seq![Deed::Record(event)]
            };
            &&& reaction.decision is None ==> deeds == first
            &&& reaction.decision matches Some(decision) ==> deeds == first.push(
                Deed::Carry {
                    at: clock.now,
                    path: ControlPath::Objective,
                    decision,
                    orders: reaction.orders,
                },
            )
        }),
{
    let heard = Heard::Fed(seen);
    let event = event_in(heard, id, clock)->0;
    let reaction = stepped(settings, state, event).1;
    let deeds = answer(settings, state, id, heard, clock);
    let first = if state.timed_out {
        seq![Deed::Record(event), Deed::Announce("operational"@)]
    } else {
        seq![Deed::Record(event)]
    };
    match reaction.decision {
        None => {
            assert(deeds =~= first);
        },
        Some(decision) => {
            assert(deeds =~= first.push(
                Deed::Carry {
                    at: clock.now,
                    path: ControlPath::Objective,
                    decision,
                    orders: reaction.orders,
                },
            ));
        },
    }
}

/// A silence is recorded, warned of the first time, and each time answered by
/// standing every battery down, as the failsafe's.
pub proof fn a_silence_is_answered_by_the_failsafe(
    settings: Settings,
    state: Snapshot,
    id: Seq<char>,
    clock: Clock,
)
    ensures
        ({
            let event = Happening::MqttTimeout { at: clock };
            let reaction = stepped(settings, state, event).1;
            let carry = Deed::Carry {
                at: clock.now,
                path: ControlPath::Failsafe,
                decision: reaction.decision->0,
                orders: reaction.orders,
            };
            &&& reaction.decision is Some
            &&& reaction.decision->0.mode == ControlMode::Idle
            &&& answer(settings, state, id, Heard::Silence, clock) == if state.timed_out {
                seq![Deed::Record(event), carry]
            } else {
                seq![Deed::Record(event), Deed::WarnOfSilence, carry]
            }
        }),
{
    let event = Happening::MqttTimeout { at: clock };
    let reaction = stepped(settings, state, event).1;
    let carry = Deed::Carry {
        at: clock.now,
        path: ControlPath::Failsafe,
        decision: reaction.decision->0,
        orders: reaction.orders,
    };
    assert(answer(settings, state, id, Heard::Silence, clock) =~= if state.timed_out {
        seq![Deed::Record(event), carry]
    } else {
        seq![Deed::Record(event), Deed::WarnOfSilence, carry]
    });
}

/// A poll is captured as it came, measured, and recorded; one that failed is captured
/// and warned of.
pub proof fn a_poll_is_answered_in_order(
    settings: Settings,
    state: Snapshot,
    id: Seq<char>,
    polled: Result<BatteryReading, PollError>,
    clock: Clock,
)
    ensures
        ({
            let deeds = answer(settings, state, id, Heard::Polled(polled), clock);
            &&& polled matches Ok(reading) ==> {
                let event = Happening::DeviceUpdate {
                    at: clock,
                    id,
                    measurement: Measurement::Battery(reading.state),
                };
                let measured = seq![
                    Deed::Measure { state: reading.state, telemetry: reading.telemetry },
                    Deed::Record(event),
                ];
                &&& reading.raw is None ==> deeds == measured
                &&& reading.raw matches Some(raw) ==> deeds == seq![
                    Deed::Capture { kind: raw.kind@, body: raw.body@ },
                ] + measured
            }
            &&& polled matches Err(e) ==> {
                &&& e.raw is None ==> deeds == seq![Deed::WarnOfPoll(e.error@)]
                &&& e.raw matches Some(raw) ==> deeds == seq![
                    Deed::Capture { kind: raw.kind@, body: raw.body@ },
                    Deed::WarnOfPoll(e.error@),
                ]
            }
        }),
{
    let deeds = answer(settings, state, id, Heard::Polled(polled), clock);
    match polled {
        Ok(reading) => {
            let event = Happening::DeviceUpdate {
                at: clock,
                id,
                measurement: Measurement::Battery(reading.state),
            };
            let measured = seq![
                Deed::Measure { state: reading.state, telemetry: reading.telemetry },
                Deed::Record(event),
            ];
            match reading.raw {
                None => {
                    assert(deeds =~= measured);
                },
                Some(raw) => {
                    assert(deeds =~= seq![Deed::Capture { kind: raw.kind@, body: raw.body@ }]
                        + measured);
                },
            }
        },
        Err(e) => {
            match e.raw {
                None => {
                    assert(deeds =~= seq![Deed::WarnOfPoll(e.error@)]);
                },
                Some(raw) => {
                    assert(deeds =~= seq![
                        Deed::Capture { kind: raw.kind@, body: raw.body@ },
                        Deed::WarnOfPoll(e.error@),
                    ]);
                },
            }
        },
    }
}

/// Only what keeps the controller informed of the meter, or stands for it, moves the
/// deadline of the failsafe: a poll of the battery does not.
pub proof fn a_poll_does_not_put_the_failsafe_off(heard: Heard)
    ensures
        heard is Polled || heard is Stop || heard is FeedersGone ==> !moves_deadline(heard),
        heard is Fed || heard is Silence ==> moves_deadline(heard),
{
}

/// The status after commands is that of their path: good if all of them were carried
/// out, bad if any was not, and none if there were none.
pub proof fn a_status_follows_the_outcomes(path: ControlPath, outcomes: Seq<Outcome>)
    ensures
        outcomes.len() == 0 ==> status_of(path, outcomes) is None,
        outcomes.len() > 0 && (forall|i: int|
            0 <= i < outcomes.len() ==> (#[trigger] outcomes[i]).applied == Applied::Done)
            ==> status_of(path, outcomes) == Some(
            if path == ControlPath::Objective {
                "operational"@
            } else {
                "mqtt_timeout"@
            },
        ),
        (exists|i: int|
            0 <= i < outcomes.len() && (#[trigger] outcomes[i]).applied == Applied::Error)
            ==> status_of(path, outcomes) == Some(
            if path == ControlPath::Objective {
                "zendure_api_error"@
            } else {
                "mqtt_timeout_api_error"@
            },
        ),
{
}

/// What is measured of a poll replaces what was known before, where the report says
/// anything; the flow of each direction goes to its own record.
pub proof fn a_poll_is_taken_in(
    before: PollTelemetry,
    report: BatteryTelemetry,
    now: Timestamp,
    unix: Timestamp,
    after: PollTelemetry,
)
    requires
        recorded(before, report, now, unix, after),
        now.ms - 86_400_000 >= i64::MIN,
    ensures
        after.rte.last_charge_power == report.charge,
        after.rte.last_discharge_power == report.discharge,
        after.rte.last_sample_time == Some(now),
        after.rte.last_sample_unix == Some(unix),
        report.pack_capacities matches Some(packs) ==> after.pack_capacities@ == packs@,
        report.pack_capacities is None ==> after.pack_capacities@ == before.pack_capacities@,
        report.min_soc matches Some(floor) ==> after.min_soc == floor,
        report.min_soc is None ==> after.min_soc == before.min_soc,
        after.rte.samples@ == pruned(
            sampled(before.rte, now, unix, report.charge, report.discharge),
            now.ms - 86_400_000,
        ),
{
}

/// The figures are those of the tracker and of all packs together, at the charge and
/// above the floor that the battery reports.
pub proof fn figures_are_of_all_packs(telemetry: PollTelemetry, soc: int, out: DashboardTelemetry)
    requires
        is_figures(telemetry, soc, out),
    ensures
        ({
            let capacity = WattHours::spec_sum(telemetry.pack_capacities@).parts as int;
            &&& out.rte is None <==> telemetry.rte.spec_rte() is None
            &&& out.rte matches Some(percent) ==> telemetry.rte.spec_rte() == Some(percent@)
            &&& capacity >= 0 ==> out.capacity@ == Some(capacity / 7200)
            &&& out.usable@ == usable(capacity, soc, telemetry.min_soc@, telemetry.rte.spec_rte())
        }),
{
}

/// A shutdown drains what there is to drain, and nothing else.
pub proof fn a_shutdown_drains_what_there_is(has_broker: bool, has_writer: bool)
    ensures
        stages(has_broker, has_writer) == (if has_broker && has_writer {
            seq![
                Stage::DrainPublisher,
                Stage::StopFeeders,
                Stage::ReleaseJournal,
                Stage::DrainJournal,
            ]
        } else if has_broker {
            seq![Stage::DrainPublisher, Stage::StopFeeders, Stage::ReleaseJournal]
        } else if has_writer {
            seq![Stage::StopFeeders, Stage::ReleaseJournal, Stage::DrainJournal]
        } else {
            seq![Stage::StopFeeders, Stage::ReleaseJournal]
        }),
{
    let plan = stages(has_broker, has_writer);
    if has_broker && has_writer {
        assert(plan =~= seq![
            Stage::DrainPublisher,
            Stage::StopFeeders,
            Stage::ReleaseJournal,
            Stage::DrainJournal,
        ]);
    } else if has_broker {
        assert(plan =~= seq![Stage::DrainPublisher, Stage::StopFeeders, Stage::ReleaseJournal]);
    } else if has_writer {
        assert(plan =~= seq![Stage::StopFeeders, Stage::ReleaseJournal, Stage::DrainJournal]);
    } else {
        assert(plan =~= seq![Stage::StopFeeders, Stage::ReleaseJournal]);
    }
}

/// The history of a day's sun keeps every row that the timezone reaches, in order,
/// with its own moment and its own power.
pub proof fn every_row_of_the_sun_is_kept(
    rows: Seq<(i64, SolarPower)>,
    timezone: Seq<char>,
    n: int,
)
    requires
        0 < n <= rows.len(),
    ensures
        ({
            let before = produced(rows, timezone, n - 1);
            let after = produced(rows, timezone, n);
            match local_ordinal(timezone, Timestamp { ms: rows[n - 1].0 }) {
                Some(ordinal) => {
                    &&& after.len() == before.len() + 1
                    &&& after.drop_last() == before
                    &&& after.last().at.ms == rows[n - 1].0
                    &&& after.last().solar == rows[n - 1].1
                    &&& after.last().day_ordinal == ordinal
                },
                None => after == before,
            }
        }),
{
    let before = produced(rows, timezone, n - 1);
    let after = produced(rows, timezone, n);
    if local_ordinal(timezone, Timestamp { ms: rows[n - 1].0 }) is Some {
        assert(after.drop_last() =~= before);
    }
}

/// A poll is published in this order: the efficiency, the temperatures, whether the
/// battery calibrates, its charge, and its flow.
pub proof fn a_poll_is_published_in_order(
    prefix: Seq<char>,
    reading: BatteryReading,
    figures: DashboardTelemetry,
    answers: PollAnswers,
)
    ensures
        ({
            let told = poll_told(prefix, reading, figures, answers);
            let n = told.len() as int;
            let rte = rte_readings(prefix, figures.rte, figures.usable, figures.capacity);
            let flow = power_readings(
                prefix,
                reading.telemetry.charge,
                reading.telemetry.discharge,
            );
            &&& n >= 7
            &&& told[0] == (Sent { notice: rte[0], answer: answers.rte@[0] })
            &&& told[1] == (Sent { notice: rte[1], answer: answers.rte@[1] })
            &&& told[2] == (Sent { notice: rte[2], answer: answers.rte@[2] })
            &&& told.subrange(3, n - 4) == temperatures_told(
                prefix,
                reading.telemetry.enclosure_temp,
                reading.telemetry.pack_temps@,
                answers.packs@,
                answers.enclosure,
            )
            &&& told[n - 4] == (Sent {
                notice: calibrating_reading(prefix, reading.state.soc_calibrating),
                answer: answers.calibrating,
            })
            &&& told[n - 3] == (Sent {
                notice: soc_reading(prefix, reading.state.soc@),
                answer: answers.soc,
            })
            &&& told[n - 2] == (Sent { notice: flow[0], answer: answers.power@[0] })
            &&& told[n - 1] == (Sent { notice: flow[1], answer: answers.power@[1] })
        }),
{
    let told = poll_told(prefix, reading, figures, answers);
    let n = told.len() as int;
    assert(told.subrange(3, n - 4) =~= temperatures_told(
        prefix,
        reading.telemetry.enclosure_temp,
        reading.telemetry.pack_temps@,
        answers.packs@,
        answers.enclosure,
    ));
}

/// Why the process stops is said by the name of the signal.
pub proof fn a_stop_is_called_by_its_signal(reason: StopReason)
    ensures
        reason == StopReason::Sigterm ==> reason.spec_text() == "SIGTERM"@,
        reason == StopReason::Sigint ==> reason.spec_text() == "SIGINT"@,
{
}

/// A drain that did not finish is told of with what was left: how many messages waited, how
/// many were dropped and how many failed. One that did is not told of.
pub proof fn a_drain_is_told_of_by_its_losses(
    e: String,
    queued: int,
    dropped: int,
    failed: int,
)
    ensures
        publisher_report(Drained::Finished, queued, dropped, failed) is None,
        publisher_report(Drained::EndedEarly(e), queued, dropped, failed) == Some(
            "MQTT delivery task ended early ("@ + e@ + ") — "@ + decimal(dropped as nat)
                + " messages dropped this session"@,
        ),
        publisher_report(Drained::TimedOut, queued, dropped, failed) == Some(
            "MQTT drain did not finish in "@ + decimal(2) + "s — "@ + decimal(queued as nat)
                + " messages were queued when it began, "@ + decimal(dropped as nat)
                + " dropped and "@ + decimal(failed as nat) + " failed this session"@,
        ),
{
}

} // verus!
