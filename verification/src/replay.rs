//! Running a recorded event stream through the decision engine again, offline.
//!
//! Feed the engine the events it was fed, from the state it was in, and hold
//! the commands that come out against the ones that were issued. It answers one
//! question: did a change alter behaviour?

use vstd::prelude::*;

use crate::allocate::{orders, Directive, Order};
use crate::config::SessionConfig;
use crate::controller::{fresh_state, Controller};
use crate::engine::{folded, reactions, Engine, EngineState, Settings, Snapshot};
use crate::event::{happenings, Event, Happening};
use crate::journal::{
    commands_between, commands_of, decision_rows, pairs_of, Commanded, Paired, RecordedFrame,
    Recording, Slice,
};
use crate::knobs::{apply_overrides, overridden, override_problem, pairs};
use crate::text;
use crate::text::{decimal, is_one_line, joined, lines, signed, views};
use crate::units::{Duration, Timestamp};
use crate::world::{is_unknown, World};

verus! {

/// The fixture format that this build reads and writes.
pub const FORMAT: u32 = 1;

/// A self-contained replay: everything needed, nothing that reaches outside.
#[derive(Debug, PartialEq)]
pub struct Fixture {
    pub format: u32,
    pub session: SessionMeta,
    pub seed: Seed,
    pub events: Vec<Event>,
    /// What was actually commanded, one line per event, built from the recorded
    /// decisions and never from a replay.
    pub expected: Vec<String>,
}

#[derive(Debug, PartialEq)]
pub struct SessionMeta {
    pub started_at_ms: i64,
    pub version: String,
    pub config: SessionConfig,
}

/// The fold's state before the first event.
#[derive(Debug, PartialEq)]
pub struct Seed {
    pub at_ms: i64,
    pub state: EngineState,
}

/// What came of one event. Kept even when empty: an event that decides nothing
/// is a fact about the fold.
#[derive(Debug, PartialEq)]
pub struct Frame {
    pub at: Timestamp,
    pub directives: Vec<Directive>,
}

/// A [`Frame`] as a mathematical value.
pub struct Take {
    pub at: Timestamp,
    pub orders: Seq<Order>,
}

impl View for Frame {
    type V = Take;

    open spec fn view(&self) -> Take {
        Take { at: self.at, orders: orders(self.directives@) }
    }
}

pub open spec fn takes(frames: Seq<Frame>) -> Seq<Take> {
    frames.map_values(|f: Frame| f@)
}

// --- folding -------------------------------------------------------------------

/// One frame per event: when it happened, and what was ordered.
pub open spec fn replayed(settings: Settings, state: Snapshot, events: Seq<Happening>) -> Seq<
    Take,
> {
    Seq::new(
        events.len(),
        |i: int|
            Take {
                at: events[i].clock().now,
                orders: reactions(settings, state, events)[i].orders,
            },
    )
}

/// Folds the events, one frame per event.
pub fn replay(engine: &mut Engine, events: &[Event]) -> (out: Vec<Frame>)
    ensures
        final(engine).settings() == old(engine).settings(),
        final(engine).snapshot() == folded(
            old(engine).settings(),
            old(engine).snapshot(),
            happenings(events@),
        ),
        takes(out@) == replayed(
            old(engine).settings(),
            old(engine).snapshot(),
            happenings(events@),
        ),
{
    let ghost settings = engine.settings();
    let ghost state = engine.snapshot();
    let ghost all = happenings(events@);
    let mut out: Vec<Frame> = Vec::new();
    for i in 0..events.len()
        invariant
            all == happenings(events@),
            engine.settings() == settings,
            engine.snapshot() == folded(settings, state, all.take(i as int)),
            takes(out@) == replayed(settings, state, all).take(i as int),
    {
        proof {
            assert(all[i as int] == events@[i as int]@);
            assert(all.take(i + 1).drop_last() =~= all.take(i as int));
            assert(all.take(i + 1).last() == all[i as int]);
        }
        let ghost so_far = out@;
        let step = engine.step(&events[i]);
        let frame = Frame { at: events[i].at(), directives: step.directives };
        out.push(frame);
        proof {
            assert(takes(out@) =~= takes(so_far).push(frame@));
            assert(replayed(settings, state, all).take(i + 1) =~= replayed(
                settings,
                state,
                all,
            ).take(i as int).push(frame@));
        }
    }
    proof {
        assert(all.take(all.len() as int) =~= all);
        assert(takes(out@) =~= replayed(settings, state, all));
    }
    out
}

// --- rendering -----------------------------------------------------------------

/// When, and what: an em dash stands for nothing, so that an event that
/// commanded nothing does not look like one that went missing.
pub open spec fn line_of(at_ms: int, body: Seq<Seq<char>>) -> Seq<char> {
    signed(at_ms) + "ms: "@ + if body.len() == 0 {
        "—"@
    } else {
        joined(body, ", "@)
    }
}

/// The device and its command.
pub open spec fn order_text(order: Order) -> Seq<char> {
    order.device + " "@ + order.description()
}

pub open spec fn take_line(take: Take) -> Seq<char> {
    line_of(take.at.ms as int, take.orders.map_values(|o: Order| order_text(o)))
}

pub open spec fn take_lines(takes: Seq<Take>) -> Seq<Seq<char>> {
    takes.map_values(|t: Take| take_line(t))
}

fn line(at_ms: i64, body: &Vec<String>) -> (out: String)
    ensures
        out@ == line_of(at_ms as int, views(body@)),
{
    let mut out = String::new();
    text::push_signed(&mut out, at_ms as i128);
    out.append("ms: ");
    if body.len() == 0 {
        out.append("—");
    } else {
        let all = text::join(body.as_slice(), ", ");
        out.append(all.as_str());
    }
    assert(out@ =~= line_of(at_ms as int, views(body@)));
    out
}

fn frame_line(frame: &Frame) -> (out: String)
    ensures
        out@ == take_line(frame@),
{
    let mut body: Vec<String> = Vec::new();
    for i in 0..frame.directives.len()
        invariant
            views(body@) == frame@.orders.take(i as int).map_values(|o: Order| order_text(o)),
    {
        let directive = &frame.directives[i];
        let mut part = directive.device().as_str().to_owned();
        part.append(" ");
        part.append(directive.describe().as_str());
        let ghost so_far = body@;
        body.push(part);
        proof {
            assert(frame@.orders[i as int] == directive@);
            assert(views(body@) =~= views(so_far).push(part@));
            assert(frame@.orders.take(i + 1).map_values(|o: Order| order_text(o)) =~= frame@.orders.take(
                i as int,
            ).map_values(|o: Order| order_text(o)).push(part@));
        }
    }
    assert(frame@.orders.take(frame@.orders.len() as int) =~= frame@.orders);
    line(frame.at.as_millis(), &body)
}

/// `<when>ms: <device> <command>`, one line per frame.
pub fn render(frames: &[Frame]) -> (out: String)
    ensures
        out@ == joined(take_lines(takes(frames@)), "\n"@),
{
    let mut all: Vec<String> = Vec::new();
    for i in 0..frames.len()
        invariant
            views(all@) == take_lines(takes(frames@)).take(i as int),
    {
        let ghost so_far = all@;
        let one = frame_line(&frames[i]);
        all.push(one);
        proof {
            assert(takes(frames@)[i as int] == frames@[i as int]@);
            assert(views(all@) =~= views(so_far).push(one@));
            assert(take_lines(takes(frames@)).take(i + 1) =~= take_lines(takes(frames@)).take(
                i as int,
            ).push(one@));
        }
    }
    assert(views(all@) =~= take_lines(takes(frames@)));
    text::join(all.as_slice(), "\n")
}

// --- recordings ----------------------------------------------------------------

/// The device and the command of a recorded decision.
pub open spec fn commanded_text(c: Commanded) -> Seq<char> {
    c.device + " "@ + c.command
}

/// What was commanded in answer to the `i`th event: the decisions recorded
/// after it and before the next.
pub open spec fn recorded_line(slice: Slice, i: int) -> Seq<char> {
    line_of(
        slice.events@[i].event@.clock().now.ms as int,
        commands_between(
            decision_rows(slice.decisions@),
            slice.events@[i].seq as int,
            slice.until(i),
            slice.decisions@.len() as int,
        ).map_values(|c: Commanded| commanded_text(c)),
    )
}

pub open spec fn recorded_lines_of(slice: Slice) -> Seq<Seq<char>> {
    Seq::new(slice.events@.len(), |i: int| recorded_line(slice, i))
}

fn recorded_lines(slice: &Slice) -> (out: Vec<String>)
    ensures
        views(out@) == recorded_lines_of(*slice),
{
    let mut out: Vec<String> = Vec::new();
    for i in 0..slice.events.len()
        invariant
            views(out@) == recorded_lines_of(*slice).take(i as int),
    {
        let after: i64 = slice.events[i].seq;
        let until: i64 = if i < slice.events.len() - 1 {
            slice.events[i + 1].seq
        } else {
            i64::MAX
        };
        let mut body: Vec<String> = Vec::new();
        let ghost rows = decision_rows(slice.decisions@);
        for k in 0..slice.decisions.len()
            invariant
                rows == decision_rows(slice.decisions@),
                views(body@) == commands_between(
                    rows,
                    after as int,
                    until as int,
                    k as int,
                ).map_values(|c: Commanded| commanded_text(c)),
        {
            let row = &slice.decisions[k];
            let ghost so_far = body@;
            let ghost before = commands_between(rows, after as int, until as int, k as int);
            proof {
                assert(rows[k as int] == row@);
            }
            if after < row.seq && row.seq < until {
                if let Some(device) = &row.device {
                    if let Some(command) = &row.command {
                        let mut part = device.clone();
                        part.append(" ");
                        part.append(command.as_str());
                        body.push(part);
                        proof {
                            let c = Commanded { device: device@, command: command@ };
                            assert(views(body@) =~= views(so_far).push(part@));
                            assert(before.push(c).map_values(|c: Commanded| commanded_text(c))
                                =~= before.map_values(|c: Commanded| commanded_text(c)).push(
                                part@,
                            ));
                        }
                    }
                }
            }
        }
        let one = line(slice.events[i].event.at().as_millis(), &body);
        let ghost so_far = out@;
        out.push(one);
        proof {
            assert(views(out@) =~= views(so_far).push(one@));
            assert(recorded_lines_of(*slice).take(i + 1) =~= recorded_lines_of(*slice).take(
                i as int,
            ).push(one@));
        }
    }
    assert(views(out@) =~= recorded_lines_of(*slice));
    out
}

/// A fixture holds a slice: its session, its events, and what was commanded.
pub open spec fn holds(fixture: Fixture, slice: Slice) -> bool {
    &&& fixture.format == FORMAT
    &&& fixture.session.version@ == slice.version@
    &&& fixture.session.config == slice.config
    &&& fixture.session.started_at_ms == fixture.seed.at_ms
    &&& happenings(fixture.events@) == Seq::new(
        slice.events@.len(),
        |i: int| slice.events@[i].event@,
    )
    &&& views(fixture.expected@) == recorded_lines_of(slice)
    &&& match slice.seed {
        Some(seed) => fixture.seed.at_ms == seed.at.ms && fixture.seed.state@ == seed.state@,
        None => starts_fresh(fixture.seed, slice.config, slice.events@[0].event@),
    }
}

/// A seed that nothing recorded: what a controller that starts just before an
/// event would hold.
pub open spec fn starts_fresh(seed: Seed, config: SessionConfig, first: Happening) -> bool {
    &&& seed.at_ms == first.clock().now.ms
    &&& is_unknown(seed.state@.house)
    &&& fresh_state(config, first.clock(), seed.state@.controller)
    &&& !seed.state@.timed_out
}

/// Turns a slice of the journal into a fixture. A slice without events is
/// refused: it would agree with anything.
pub fn from_slice(slice: Slice) -> (out: Result<Fixture, String>)
    ensures
        match out {
            Ok(fixture) => slice.events@.len() > 0 && holds(fixture, slice),
            Err(e) => slice.events@.len() == 0 && e@ == "no replayable events in that range"@,
        },
{
    if slice.events.len() == 0 {
        return Err("no replayable events in that range".to_owned());
    }
    let expected = recorded_lines(&slice);
    let ghost whole = slice;
    let Slice { version, config, seed, events, decisions: _, spans_sessions: _ } = slice;
    let seed = match seed {
        Some(seed) => Seed { at_ms: seed.at.as_millis(), state: seed.state },
        None => {
            let first = events[0].event.clock();
            Seed {
                at_ms: first.now.as_millis(),
                state: EngineState {
                    world: World::new(),
                    controller: Controller::from_session(&config, first).state(),
                    mqtt_timed_out: false,
                },
            }
        },
    };
    let mut plain: Vec<Event> = Vec::new();
    for i in 0..events.len()
        invariant
            happenings(plain@) == Seq::new(events@.len(), |k: int| events@[k].event@).take(
                i as int,
            ),
    {
        let event = events[i].event.clone();
        let ghost so_far = plain@;
        plain.push(event);
        proof {
            let all = Seq::new(events@.len(), |k: int| events@[k].event@);
            assert(happenings(plain@) =~= happenings(so_far).push(event@));
            assert(all.take(i + 1) =~= all.take(i as int).push(event@));
        }
    }
    assert(happenings(plain@) =~= Seq::new(events@.len(), |k: int| events@[k].event@));
    Ok(
        Fixture {
            format: FORMAT,
            session: SessionMeta { started_at_ms: seed.at_ms, version, config },
            seed,
            events: plain,
            expected,
        },
    )
}

/// What is said of a slice that replays only in part as it was decided.
pub open spec fn slice_warnings_of(slice: Slice) -> Seq<Seq<char>> {
    let restart: Seq<Seq<char>> = if slice.spans_sessions {
        seq![
            "this range spans a restart; the fixture carries one session's tuning, so part of it may replay under knobs it was not decided with"@,
        ]
    } else {
        Seq::empty()
    };
    let seedless: Seq<Seq<char>> = if slice.seed is None && slice.events@.len() > 0 {
        seq![seedless_warning(slice.events@[0].event@)]
    } else {
        Seq::empty()
    };
    if slice.events@.len() == 0 {
        Seq::empty()
    } else {
        restart + seedless
    }
}

/// What is said where no snapshot was recorded before a range.
pub open spec fn seedless_warning(first: Happening) -> Seq<char> {
    "no decision recorded at or before the start of this range; seeding from a fresh controller at "@
        + signed(first.clock().now.ms as int) + "ms"@
}

fn warn_of_no_seed(first: &Event) -> (out: String)
    ensures
        out@ == seedless_warning(first@),
{
    let mut out =
        "no decision recorded at or before the start of this range; seeding from a fresh controller at ".to_owned();
    text::push_signed(&mut out, first.at().as_millis() as i128);
    out.append("ms");
    out
}

/// What is said of a slice that replays only in part as it was decided.
pub fn slice_warnings(slice: &Slice) -> (out: Vec<String>)
    ensures
        views(out@) == slice_warnings_of(*slice),
{
    let mut out: Vec<String> = Vec::new();
    if slice.events.len() > 0 {
        if slice.spans_sessions {
            out.push(
                "this range spans a restart; the fixture carries one session's tuning, so part of it may replay under knobs it was not decided with".to_owned(),
            );
        }
        if slice.seed.is_none() {
            out.push(warn_of_no_seed(&slice.events[0].event));
        }
    }
    assert(views(out@) =~= slice_warnings_of(*slice));
    out
}

/// What was commanded in answer to a recorded event.
pub open spec fn paired_line(pair: Paired) -> Seq<char> {
    line_of(
        pair.event.clock().now.ms as int,
        pair.commands.map_values(|c: Commanded| commanded_text(c)),
    )
}

pub open spec fn paired_lines(pairs: Seq<Paired>) -> Seq<Seq<char>> {
    pairs.map_values(|p: Paired| paired_line(p))
}

fn recorded_frame_line(frame: &RecordedFrame) -> (out: String)
    ensures
        out@ == paired_line(frame@),
{
    let mut body: Vec<String> = Vec::new();
    let ghost all = frame@.commands;
    for i in 0..frame.commands.len()
        invariant
            all == commands_of(frame.commands@),
            views(body@) == all.take(i as int).map_values(|c: Commanded| commanded_text(c)),
    {
        let mut part = frame.commands[i].0.as_str().to_owned();
        part.append(" ");
        part.append(frame.commands[i].1.as_str());
        let ghost so_far = body@;
        body.push(part);
        proof {
            assert(all[i as int] == (Commanded {
                device: frame.commands@[i as int].0@,
                command: frame.commands@[i as int].1@,
            }));
            assert(views(body@) =~= views(so_far).push(part@));
            assert(all.take(i + 1).map_values(|c: Commanded| commanded_text(c)) =~= all.take(
                i as int,
            ).map_values(|c: Commanded| commanded_text(c)).push(part@));
        }
    }
    assert(all.take(all.len() as int) =~= all);
    line(frame.event.at().as_millis(), &body)
}

/// A fixture holds a recording: its session, its events, and what was commanded.
pub open spec fn holds_recording(fixture: Fixture, recording: Recording) -> bool {
    let pairs = pairs_of(recording.frames@);
    &&& fixture.format == FORMAT
    &&& fixture.session.version@ == recording.version@
    &&& fixture.session.config == recording.config
    &&& fixture.session.started_at_ms == recording.started_at.ms
    &&& happenings(fixture.events@) == pairs.map_values(|p: Paired| p.event)
    &&& views(fixture.expected@) == paired_lines(pairs)
    &&& match recording.seed {
        Some(seed) => fixture.seed.at_ms == seed.at.ms && fixture.seed.state@ == seed.state@,
        None => starts_fresh(fixture.seed, recording.config, pairs[0].event),
    }
}

/// Turns a recorded run into a fixture, and says what there is to say of it. A
/// run without events is refused: it would agree with anything.
pub fn from_recording(recording: Recording) -> (out: Result<(Fixture, Vec<String>), String>)
    ensures
        match out {
            Ok((fixture, warnings)) => {
                &&& recording.frames@.len() > 0
                &&& holds_recording(fixture, recording)
                &&& views(warnings@) == if recording.seed is None {
                    views(recording.warnings@).push(
                        seedless_warning(recording.frames@[0].event@),
                    )
                } else {
                    views(recording.warnings@)
                }
            },
            Err(e) => recording.frames@.len() == 0 && e@ == "no replayable events in that range"@,
        },
{
    if recording.frames.len() == 0 {
        return Err("no replayable events in that range".to_owned());
    }
    let Recording { version, started_at, config, seed, frames, warnings } = recording;
    let mut warnings = warnings;
    let ghost pairs = pairs_of(frames@);
    assert(pairs[0].event == frames@[0].event@);
    let seed = match seed {
        Some(seed) => Seed { at_ms: seed.at.as_millis(), state: seed.state },
        None => {
            let ghost said = warnings@;
            let warning = warn_of_no_seed(&frames[0].event);
            warnings.push(warning);
            assert(views(warnings@) =~= views(said).push(warning@));
            let first = frames[0].event.clock();
            Seed {
                at_ms: first.now.as_millis(),
                state: EngineState {
                    world: World::new(),
                    controller: Controller::from_session(&config, first).state(),
                    mqtt_timed_out: false,
                },
            }
        },
    };
    let mut events: Vec<Event> = Vec::new();
    let mut expected: Vec<String> = Vec::new();
    for i in 0..frames.len()
        invariant
            pairs == pairs_of(frames@),
            happenings(events@) == pairs.map_values(|p: Paired| p.event).take(i as int),
            views(expected@) == paired_lines(pairs).take(i as int),
    {
        let event = frames[i].event.clone();
        let one = recorded_frame_line(&frames[i]);
        let ghost so_far = events@;
        let ghost lines_so_far = expected@;
        events.push(event);
        expected.push(one);
        proof {
            assert(pairs[i as int] == frames@[i as int]@);
            assert(happenings(events@) =~= happenings(so_far).push(event@));
            assert(views(expected@) =~= views(lines_so_far).push(one@));
            let all = pairs.map_values(|p: Paired| p.event);
            assert(all.take(i + 1) =~= all.take(i as int).push(event@));
            assert(paired_lines(pairs).take(i + 1) =~= paired_lines(pairs).take(i as int).push(
                one@,
            ));
        }
    }
    proof {
        assert(happenings(events@) =~= pairs.map_values(|p: Paired| p.event));
        assert(views(expected@) =~= paired_lines(pairs));
    }
    let fixture = Fixture {
        format: FORMAT,
        session: SessionMeta { started_at_ms: started_at.as_millis(), version, config },
        seed,
        events,
        expected,
    };
    Ok((fixture, warnings))
}

// --- running -------------------------------------------------------------------

/// What a fixture's engine is built with, under some tuning.
pub open spec fn settings_of(config: SessionConfig) -> Settings {
    Settings {
        tuning: config,
        mqtt_timeout: Duration { secs: config.mqtt_timeout_secs, millis: 0 },
    }
}

/// Builds the engine that a fixture describes and runs its events through it.
pub fn run(fixture: &Fixture, overrides: &[(String, String)]) -> (out: Result<Vec<Frame>, String>)
    ensures
        match out {
            Ok(frames) => {
                &&& fixture.format == FORMAT
                &&& override_problem(pairs(overrides@)) is None
                &&& exists|config: SessionConfig| #[trigger]
                    overridden(fixture.session.config, pairs(overrides@), config) && takes(
                        frames@,
                    ) == replayed(
                        settings_of(config),
                        fixture.seed.state@,
                        happenings(fixture.events@),
                    )
            },
            Err(e) => if fixture.format != FORMAT {
                e@ == "fixture format "@ + decimal(fixture.format as nat)
                    + " is not supported (this build reads 1)"@
            } else {
                override_problem(pairs(overrides@)) == Some(e@)
            },
        },
{
    if fixture.format != FORMAT {
        let mut e = "fixture format ".to_owned();
        text::push_decimal(&mut e, fixture.format as u128);
        e.append(" is not supported (this build reads 1)");
        return Err(e);
    }
    let config = match apply_overrides(&fixture.session.config, overrides) {
        Ok(config) => config,
        Err(e) => {
            return Err(e);
        },
    };
    if fixture.events.len() == 0 {
        let none: Vec<Frame> = Vec::new();
        proof {
            assert(takes(none@) =~= replayed(
                settings_of(config),
                fixture.seed.state@,
                happenings(fixture.events@),
            ));
            assert(overridden(fixture.session.config, pairs(overrides@), config));
        }
        return Ok(none);
    }
    let clock = *fixture.events[0].clock();
    // The clock only starts a controller whose history is replaced at once.
    let mut engine = Engine::new(
        Controller::from_session(&config, &clock),
        World::new(),
        Duration::from_secs(config.mqtt_timeout_secs),
    );
    engine.restore(fixture.seed.state.clone());
    let frames = replay(&mut engine, fixture.events.as_slice());
    assert(overridden(fixture.session.config, pairs(overrides@), config));
    Ok(frames)
}

// --- verifying -----------------------------------------------------------------

/// The first line in which two runs differ, from `from` on.
pub open spec fn divergence(want: Seq<Seq<char>>, got: Seq<Seq<char>>, from: int) -> Option<int>
    decreases want.len() - from,
{
    if from >= want.len() {
        None
    } else if want[from] != got[from] {
        Some(from)
    } else {
        divergence(want, got, from + 1)
    }
}

/// What there is to say against a replay, where it does not match what was
/// recorded.
pub open spec fn complaint(expected: Seq<Seq<char>>, actual: Seq<Seq<char>>) -> Option<Seq<char>> {
    if expected.len() == 0 {
        Some("fixture has no `expected` to verify against"@)
    } else if expected.len() != actual.len() {
        Some(
            "replay produced "@ + decimal(actual.len()) + " frames, the recording has "@ + decimal(
                expected.len(),
            ),
        )
    } else {
        match divergence(expected, actual, 0) {
            Some(i) => Some(
                "diverged at frame "@ + decimal(i as nat) + ":\n  recorded: "@ + expected[i]
                    + "\n  replayed: "@ + actual[i],
            ),
            None => None,
        }
    }
}

/// Holds a replay against what was recorded.
pub fn verify(fixture: &Fixture, frames: &[Frame]) -> (out: Result<(), String>)
    ensures
        match out {
            Ok(_) => complaint(
                views(fixture.expected@),
                lines(joined(take_lines(takes(frames@)), "\n"@)),
            ) is None,
            Err(e) => complaint(
                views(fixture.expected@),
                lines(joined(take_lines(takes(frames@)), "\n"@)),
            ) == Some(e@),
        },
{
    let rendered = render(frames);
    let actual = text::lines_of(rendered.as_str());
    let ghost want = views(fixture.expected@);
    let ghost got = views(actual@);
    assert(want.len() == fixture.expected@.len() && got.len() == actual@.len());
    if fixture.expected.len() == 0 {
        return Err("fixture has no `expected` to verify against".to_owned());
    }
    if fixture.expected.len() != actual.len() {
        let mut e = "replay produced ".to_owned();
        text::push_decimal(&mut e, actual.len() as u128);
        e.append(" frames, the recording has ");
        text::push_decimal(&mut e, fixture.expected.len() as u128);
        return Err(e);
    }
    let mut i: usize = 0;
    while i < fixture.expected.len()
        invariant
            i <= fixture.expected.len() == actual.len(),
            want == views(fixture.expected@),
            got == views(actual@),
            divergence(want, got, 0) == divergence(want, got, i as int),
            want.len() > 0,
            want.len() == got.len() == actual.len(),
            got == lines(joined(take_lines(takes(frames@)), "\n"@)),
        decreases fixture.expected.len() - i,
    {
        assert(want[i as int] == fixture.expected@[i as int]@);
        assert(got[i as int] == actual@[i as int]@);
        if !text::same(fixture.expected[i].as_str(), actual[i].as_str()) {
            let mut e = "diverged at frame ".to_owned();
            text::push_decimal(&mut e, i as u128);
            e.append(":\n  recorded: ");
            e.append(fixture.expected[i].as_str());
            e.append("\n  replayed: ");
            e.append(actual[i].as_str());
            return Err(e);
        }
        i += 1;
    }
    Ok(())
}

// --- laws ----------------------------------------------------------------------

/// A replay is accepted exactly when there is a recording, and it says the
/// same, line by line.
pub proof fn only_the_recording_is_accepted(expected: Seq<Seq<char>>, actual: Seq<Seq<char>>)
    ensures
        complaint(expected, actual) is None <==> expected.len() > 0 && expected == actual,
{
    if expected.len() > 0 && expected.len() == actual.len() {
        divergence_is_first(expected, actual, 0);
        if divergence(expected, actual, 0) is None {
            assert(expected =~= actual);
        }
    }
}

proof fn divergence_is_first(want: Seq<Seq<char>>, got: Seq<Seq<char>>, from: int)
    requires
        0 <= from <= want.len() == got.len(),
    ensures
        divergence(want, got, from) is None <==> forall|i: int|
            from <= i < want.len() ==> want[i] == got[i],
        divergence(want, got, from) matches Some(i) ==> from <= i < want.len() && want[i]
            != got[i],
    decreases want.len() - from,
{
    if from < want.len() && want[from] == got[from] {
        divergence_is_first(want, got, from + 1);
    }
}

/// One frame per event, at the time of the event, whether or not it commanded
/// anything.
pub proof fn every_event_has_a_frame(
    settings: Settings,
    state: Snapshot,
    events: Seq<Happening>,
    i: int,
)
    ensures
        replayed(settings, state, events).len() == events.len(),
        0 <= i < events.len() ==> replayed(settings, state, events)[i].at == events[i].clock().now,
{
}

/// What was recorded of a run: between each event and the next, exactly the
/// commands that the run gave in answer to it.
pub open spec fn is_recording_of(slice: Slice, settings: Settings, state: Snapshot) -> bool {
    let events = Seq::new(slice.events@.len(), |i: int| slice.events@[i].event@);
    forall|i: int|
        0 <= i < events.len() ==> commands_between(
            decision_rows(slice.decisions@),
            slice.events@[i].seq as int,
            #[trigger] slice.until(i),
            slice.decisions@.len() as int,
        ) == reactions(settings, state, events)[i].orders.map_values(
            |o: Order| Commanded { device: o.device, command: o.description() },
        )
}

/// No device has a line break in its name.
pub open spec fn names_are_clean(takes: Seq<Take>) -> bool {
    forall|i: int, k: int|
        #![trigger takes[i].orders[k]]
        0 <= i < takes.len() && 0 <= k < takes[i].orders.len() ==> text::is_clean(
            takes[i].orders[k].device,
        )
}

/// A recording replays to the commands it recorded: a fixture made of what was
/// recorded of a run, replayed from the state the run began in and under its
/// tuning, is accepted.
pub proof fn a_recording_replays_to_itself(
    fixture: Fixture,
    slice: Slice,
    settings: Settings,
    state: Snapshot,
)
    requires
        slice.events@.len() > 0,
        holds(fixture, slice),
        is_recording_of(slice, settings, state),
        names_are_clean(replayed(settings, state, happenings(fixture.events@))),
    ensures
        complaint(
            views(fixture.expected@),
            lines(
                joined(
                    take_lines(replayed(settings, state, happenings(fixture.events@))),
                    "\n"@,
                ),
            ),
        ) is None,
{
    let events = happenings(fixture.events@);
    let takes = replayed(settings, state, events);
    let rendered = take_lines(takes);
    assert forall|i: int| 0 <= i < rendered.len() implies recorded_lines_of(slice)[i]
        == #[trigger] rendered[i] by {
        let between = commands_between(
            decision_rows(slice.decisions@),
            slice.events@[i].seq as int,
            slice.until(i),
            slice.decisions@.len() as int,
        );
        let orders = takes[i].orders;
        assert(events[i] == slice.events@[i].event@);
        assert(between.map_values(|c: Commanded| commanded_text(c)) =~= orders.map_values(
            |o: Order| order_text(o),
        ));
    }
    assert(views(fixture.expected@) =~= rendered);
    rendered_is_read_back(takes);
}

/// Frames that are rendered, and taken apart line by line, agree with
/// themselves.
pub proof fn rendered_is_read_back(takes: Seq<Take>)
    requires
        takes.len() > 0,
        names_are_clean(takes),
    ensures
        complaint(take_lines(takes), lines(joined(take_lines(takes), "\n"@))) is None,
{
    let rendered = take_lines(takes);
    assert forall|i: int| 0 <= i < rendered.len() implies is_one_line(#[trigger] rendered[i]) by {
        let orders = takes[i].orders;
        assert forall|k: int| 0 <= k < orders.len() implies text::is_clean(
            #[trigger] orders[k].device,
        ) by {
            assert(text::is_clean(takes[i].orders[k].device));
        }
        a_line_is_one_line(takes[i]);
    }
    reveal_strlit("\n");
    assert("\n"@ =~= seq!['\n']);
    text::joined_lines_come_apart(rendered);
    only_the_recording_is_accepted(rendered, rendered);
}

proof fn a_line_is_one_line(take: Take)
    requires
        forall|k: int|
            0 <= k < take.orders.len() ==> text::is_clean(#[trigger] take.orders[k].device),
    ensures
        is_one_line(take_line(take)),
{
    let body = take.orders.map_values(|o: Order| order_text(o));
    reveal_strlit("ms: ");
    reveal_strlit("—");
    reveal_strlit(", ");
    reveal_strlit(" ");
    text::signed_is_clean(take.at.ms as int);
    assert forall|k: int| 0 <= k < body.len() implies text::is_clean(#[trigger] body[k]) by {
        let order = take.orders[k];
        assert(text::is_clean(order.device));
        a_command_is_clean(order);
        text::clean_together(order.device, " "@);
        text::clean_together(order.device + " "@, order.description());
    }
    text::joined_is_clean(body, ", "@);
    text::clean_together(signed(take.at.ms as int), "ms: "@);
    text::clean_together(
        signed(take.at.ms as int) + "ms: "@,
        if body.len() == 0 {
            "—"@
        } else {
            joined(body, ", "@)
        },
    );
}

proof fn a_command_is_clean(order: Order)
    ensures
        text::is_clean(order.description()),
{
    reveal_strlit("set_charge(");
    reveal_strlit("set_discharge(");
    reveal_strlit("W)");
    reveal_strlit("set_idle");
    reveal_strlit("set_standby");
    match order.command {
        crate::command::Command::SetCharge(w) => {
            text::decimal_is_clean(w.watts as nat);
            text::clean_together("set_charge("@, decimal(w.watts as nat));
        },
        crate::command::Command::SetDischarge(w) => {
            text::decimal_is_clean(w.watts as nat);
            text::clean_together("set_discharge("@, decimal(w.watts as nat));
        },
        _ => {},
    }
}

/// A line says when, and then each command with its device, in order: the first right
/// behind the time, each further one behind a comma. An em dash stands for none.
pub proof fn a_line_says_when_and_what(at: Timestamp, orders: Seq<Order>, order: Order)
    ensures
        take_line(Take { at, orders: Seq::empty() }) == signed(at.ms as int) + "ms: "@ + "—"@,
        take_line(Take { at, orders: seq![order] }) == signed(at.ms as int) + "ms: "@ + (
        order.device + " "@ + order.description()),
        orders.len() > 0 ==> take_line(Take { at, orders: orders.push(order) }) == take_line(
            Take { at, orders },
        ) + ", "@ + (order.device + " "@ + order.description()),
{
    let one = seq![order].map_values(|o: Order| order_text(o));
    assert(one =~= seq![order_text(order)]);
    if orders.len() > 0 {
        let body = orders.map_values(|o: Order| order_text(o));
        assert(orders.push(order).map_values(|o: Order| order_text(o)) =~= body.push(
            order_text(order),
        ));
        text::joining_puts_the_separator_between(body, order_text(order), ", "@);
        let when = signed(at.ms as int) + "ms: "@;
        assert(when + (joined(body, ", "@) + ", "@ + order_text(order)) =~= when + joined(
            body,
            ", "@,
        ) + ", "@ + order_text(order));
    }
}

/// What was recorded of an event reads as what a replay of it would: a line says the same
/// of a command whether it was recorded or ordered.
pub proof fn a_recorded_command_reads_as_an_order(at: Timestamp, event: Happening, order: Order)
    requires
        event.clock().now == at,
    ensures
        paired_line(
            Paired {
                event,
                commands: seq![Commanded { device: order.device, command: order.description() }],
            },
        ) == take_line(Take { at, orders: seq![order] }),
        paired_line(Paired { event, commands: Seq::empty() }) == take_line(
            Take { at, orders: Seq::empty() },
        ),
{
    let c = Commanded { device: order.device, command: order.description() };
    assert(seq![c].map_values(|c: Commanded| commanded_text(c)) =~= seq![order].map_values(
        |o: Order| order_text(o),
    ));
    assert(Seq::<Commanded>::empty().map_values(|c: Commanded| commanded_text(c))
        =~= Seq::<Order>::empty().map_values(|o: Order| order_text(o)));
}

/// A frame holds what its event led to, when it did.
pub proof fn a_frame_holds_what_its_event_led_to(
    settings: Settings,
    state: Snapshot,
    events: Seq<Happening>,
    i: int,
)
    requires
        0 <= i < events.len(),
    ensures
        replayed(settings, state, events)[i].at == events[i].clock().now,
        replayed(settings, state, events)[i].orders == reactions(settings, state, events)[i].orders,
{
}

/// A complaint names the first frame in which the two differ, with what was recorded of
/// it and what came out.
pub proof fn a_complaint_names_the_first_difference(
    expected: Seq<Seq<char>>,
    actual: Seq<Seq<char>>,
    i: int,
)
    requires
        0 <= i < expected.len() == actual.len(),
        expected[i] != actual[i],
        forall|k: int| 0 <= k < i ==> expected[k] == actual[k],
    ensures
        complaint(expected, actual) == Some(
            "diverged at frame "@ + decimal(i as nat) + ":\n  recorded: "@ + expected[i]
                + "\n  replayed: "@ + actual[i],
        ),
{
    no_difference_before(expected, actual, 0, i);
}

proof fn no_difference_before(want: Seq<Seq<char>>, got: Seq<Seq<char>>, from: int, to: int)
    requires
        0 <= from <= to < want.len() == got.len(),
        want[to] != got[to],
        forall|k: int| from <= k < to ==> want[k] == got[k],
    ensures
        divergence(want, got, from) == Some(to),
    decreases to - from,
{
    if from < to {
        assert(want[from] == got[from]);
        no_difference_before(want, got, from + 1, to);
    }
}

/// A complaint about the number of frames says first what the replay gave and then what
/// was recorded. With nothing recorded, there is nothing to agree with.
pub proof fn a_complaint_counts_the_frames(expected: Seq<Seq<char>>, actual: Seq<Seq<char>>)
    requires
        expected.len() != actual.len() || expected.len() == 0,
    ensures
        expected.len() > 0 ==> complaint(expected, actual) == Some(
            "replay produced "@ + decimal(actual.len()) + " frames, the recording has "@ + decimal(
                expected.len(),
            ),
        ),
        expected.len() == 0 ==> complaint(expected, actual) == Some(
            "fixture has no `expected` to verify against"@,
        ),
{
}

/// A fixture of a slice has the slice's version, tuning, events and state; where no state
/// was recorded, that of a controller which starts with the first event.
pub proof fn a_fixture_is_of_its_slice(fixture: Fixture, slice: Slice, i: int)
    requires
        holds(fixture, slice),
        0 <= i < slice.events@.len(),
    ensures
        fixture.format == 1,
        fixture.session.version@ == slice.version@,
        fixture.session.config == slice.config,
        fixture.session.started_at_ms == fixture.seed.at_ms,
        fixture.events@.len() == slice.events@.len(),
        fixture.events@[i]@ == slice.events@[i].event@,
        fixture.expected@.len() == slice.events@.len(),
        slice.seed matches Some(seed) ==> fixture.seed.at_ms == seed.at.ms
            && fixture.seed.state@ == seed.state@,
        slice.seed is None ==> fixture.seed.at_ms == slice.events@[0].event@.clock().now.ms
            && fixture.seed.state@.house.devices.len() == 0 && !fixture.seed.state@.timed_out,
{
    let all = Seq::new(slice.events@.len(), |i: int| slice.events@[i].event@);
    assert(happenings(fixture.events@).len() == fixture.events@.len());
    assert(happenings(fixture.events@)[i] == all[i]);
    assert(views(fixture.expected@).len() == fixture.expected@.len());
}

/// A fixture of a recording has the recording's version, tuning, events and state, and
/// the time at which its session began.
pub proof fn a_fixture_is_of_its_recording(fixture: Fixture, recording: Recording, i: int)
    requires
        holds_recording(fixture, recording),
        0 <= i < recording.frames@.len(),
    ensures
        fixture.format == 1,
        fixture.session.version@ == recording.version@,
        fixture.session.config == recording.config,
        fixture.session.started_at_ms == recording.started_at.ms,
        fixture.events@.len() == recording.frames@.len(),
        fixture.events@[i]@ == recording.frames@[i].event@,
        fixture.expected@.len() == recording.frames@.len(),
        fixture.expected@[i]@ == paired_line(recording.frames@[i]@),
        recording.seed matches Some(seed) ==> fixture.seed.at_ms == seed.at.ms
            && fixture.seed.state@ == seed.state@,
        recording.seed is None ==> fixture.seed.at_ms
            == recording.frames@[0].event@.clock().now.ms
            && fixture.seed.state@.house.devices.len() == 0 && !fixture.seed.state@.timed_out,
{
    let pairs = pairs_of(recording.frames@);
    let all = pairs.map_values(|p: Paired| p.event);
    assert(happenings(fixture.events@).len() == fixture.events@.len());
    assert(happenings(fixture.events@)[i] == all[i]);
    assert(pairs[i] == recording.frames@[i]@ && pairs[0] == recording.frames@[0]@);
    assert(views(fixture.expected@).len() == fixture.expected@.len());
    assert(views(fixture.expected@)[i] == paired_lines(pairs)[i]);
}

/// A slice is warned of once for a restart within it, and once where no state was
/// recorded; nothing is said of one that is empty.
pub proof fn a_slice_is_warned_of(slice: Slice)
    ensures
        slice.events@.len() == 0 ==> slice_warnings_of(slice).len() == 0,
        slice.events@.len() > 0 ==> slice_warnings_of(slice).len() == (if slice.spans_sessions {
            1int
        } else {
            0
        }) + (if slice.seed is None {
            1int
        } else {
            0
        }),
        slice.events@.len() > 0 && slice.seed is None ==> slice_warnings_of(slice).last()
            == "no decision recorded at or before the start of this range; seeding from a fresh controller at "@
            + signed(slice.events@[0].event@.clock().now.ms as int) + "ms"@,
        slice.events@.len() > 0 && slice.spans_sessions ==> slice_warnings_of(slice)[0]
            == "this range spans a restart; the fixture carries one session's tuning, so part of it may replay under knobs it was not decided with"@,
{
}

/// An engine is built with the tuning of its session, and waits for the meter as long as
/// that says.
pub proof fn an_engine_has_the_tuning_of_its_session(config: SessionConfig)
    ensures
        settings_of(config).tuning == config,
        settings_of(config).mqtt_timeout@ == config.mqtt_timeout_secs * 1000,
{
}

/// A run gives one frame for each event, at the time of the event, and refuses a fixture
/// of another format.
pub proof fn a_run_has_a_frame_for_each_event(
    fixture: Fixture,
    overrides: &[(String, String)],
    out: Result<Vec<Frame>, String>,
    i: int,
)
    requires
        call_ensures(run, (&fixture, overrides), out),
        0 <= i < fixture.events@.len(),
    ensures
        fixture.format != 1 ==> out is Err,
        out matches Ok(frames) ==> frames@.len() == fixture.events@.len() && frames@[i].at
            == fixture.events@[i]@.clock().now,
{
    if let Ok(frames) = out {
        let config = choose|config: SessionConfig| #[trigger]
            overridden(fixture.session.config, pairs(overrides@), config) && takes(frames@)
                == replayed(
                settings_of(config),
                fixture.seed.state@,
                happenings(fixture.events@),
            );
        let whole = replayed(
            settings_of(config),
            fixture.seed.state@,
            happenings(fixture.events@),
        );
        assert(takes(frames@).len() == frames@.len());
        assert(happenings(fixture.events@).len() == fixture.events@.len());
        assert(takes(frames@)[i] == whole[i]);
        assert(happenings(fixture.events@)[i] == fixture.events@[i]@);
    }
}

} // verus!
