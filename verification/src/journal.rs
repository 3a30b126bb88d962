//! The journal: what is written of a run, and what is read back.
//!
//! Every row carries a number that the single writer hands out in the order of
//! arrival. It orders events and decisions against each other where timestamps
//! cannot: a decision carries the millisecond of the event that caused it.

use vstd::prelude::*;

use crate::backpressure::{is_power_of_two, tally};
use crate::config::SessionConfig;
use crate::device::{ControlPath, Outcome};
use crate::engine::EngineState;
use crate::event::{Event, Happening};
use crate::json;
use crate::json::stored;
use crate::models::ControlDecision;
use crate::text;
use crate::text::{signed, views};
use crate::units::{GridPower, RetentionDays, SolarPower, Timestamp};
use crate::world::DeviceId;

verus! {

// --- recorded decisions --------------------------------------------------------

/// A recorded decision: its number, and the command to one device. Both are
/// absent when it commanded nothing.
pub struct Row {
    pub seq: int,
    pub device: Option<Seq<char>>,
    pub command: Option<Seq<char>>,
}

/// A command to a device, as it was recorded.
pub struct Commanded {
    pub device: Seq<char>,
    pub command: Seq<char>,
}

pub open spec fn seen(s: Option<String>) -> Option<Seq<char>> {
    match s {
        Some(s) => Some(s@),
        None => None,
    }
}

/// The commands among the first `n` rows that were recorded after `after` and
/// before `until`.
pub open spec fn commands_between(rows: Seq<Row>, after: int, until: int, n: int) -> Seq<Commanded>
    decreases n,
{
    if n <= 0 {
        Seq::empty()
    } else {
        let front = commands_between(rows, after, until, n - 1);
        let row = rows[n - 1];
        match (row.device, row.command) {
            (Some(device), Some(command)) if after < row.seq < until => front.push(
                Commanded { device, command },
            ),
            _ => front,
        }
    }
}

/// Rows that lie outside the range add nothing.
proof fn nothing_outside(rows: Seq<Row>, after: int, until: int, from: int, to: int)
    requires
        0 <= from <= to <= rows.len(),
        forall|k: int| from <= k < to ==> !(after < (#[trigger] rows[k]).seq < until),
    ensures
        commands_between(rows, after, until, to) == commands_between(rows, after, until, from),
    decreases to - from,
{
    if from < to {
        nothing_outside(rows, after, until, from, to - 1);
        assert(!(after < rows[to - 1].seq < until));
    }
}

/// A recorded decision, as a row of the journal gives it.
#[derive(Debug, PartialEq)]
pub struct RecordedDecision {
    pub seq: i64,
    pub device: Option<String>,
    pub command: Option<String>,
}

impl View for RecordedDecision {
    type V = Row;

    open spec fn view(&self) -> Row {
        Row { seq: self.seq as int, device: seen(self.device), command: seen(self.command) }
    }
}

pub open spec fn decision_rows(decisions: Seq<RecordedDecision>) -> Seq<Row> {
    decisions.map_values(|d: RecordedDecision| d@)
}

/// An event with its number.
#[derive(Debug, PartialEq)]
pub struct SeqEvent {
    pub seq: i64,
    pub event: Event,
}

/// The state that a replay resumes from, and when it was taken.
#[derive(Debug, PartialEq)]
pub struct Seed {
    pub at: Timestamp,
    pub state: EngineState,
}

/// A stretch of the journal.
#[derive(Debug, PartialEq)]
pub struct Slice {
    pub version: String,
    pub config: SessionConfig,
    pub seed: Option<Seed>,
    pub events: Vec<SeqEvent>,
    pub decisions: Vec<RecordedDecision>,
    pub spans_sessions: bool,
}

impl Slice {
    /// The number of the event after the `i`th, or one above all.
    pub open spec fn until(self, i: int) -> int {
        if i + 1 < self.events@.len() {
            self.events@[i + 1].seq as int
        } else {
            i64::MAX as int
        }
    }
}

// --- pairing -------------------------------------------------------------------

/// One recorded event and the commands it caused.
#[derive(Debug)]
pub struct RecordedFrame {
    pub event: Event,
    pub commands: Vec<(DeviceId, String)>,
}

pub open spec fn commands_of(commands: Seq<(DeviceId, String)>) -> Seq<Commanded> {
    commands.map_values(|c: (DeviceId, String)| Commanded { device: c.0@, command: c.1@ })
}

/// A decision as it comes out of a query: number, device, command.
pub type DecisionTuple = (i64, Option<String>, Option<String>);

pub open spec fn tuple_rows(decisions: Seq<DecisionTuple>) -> Seq<Row> {
    decisions.map_values(
        |d: DecisionTuple| Row { seq: d.0 as int, device: seen(d.1), command: seen(d.2) },
    )
}

/// An event with its number.
pub type Numbered = (int, Happening);

pub open spec fn numbered(events: Seq<(i64, Event)>) -> Seq<Numbered> {
    events.map_values(|e: (i64, Event)| (e.0 as int, e.1@))
}

/// The number of the event after the `i`th, or one above all.
pub open spec fn until(events: Seq<Numbered>, i: int) -> int {
    if i + 1 < events.len() {
        events[i + 1].0
    } else {
        i64::MAX as int
    }
}

/// Rows come in the order of their numbers.
pub open spec fn rows_in_order(rows: Seq<Row>) -> bool {
    forall|i: int, j: int|
        0 <= i < j < rows.len() ==> (#[trigger] rows[i]).seq <= (#[trigger] rows[j]).seq
}

pub open spec fn events_in_order(events: Seq<Numbered>) -> bool {
    forall|i: int, j: int|
        0 <= i < j < events.len() ==> (#[trigger] events[i]).0 <= (#[trigger] events[j]).0
}

/// A [`RecordedFrame`] as a mathematical value.
pub struct Paired {
    pub event: Happening,
    pub commands: Seq<Commanded>,
}

impl View for RecordedFrame {
    type V = Paired;

    open spec fn view(&self) -> Paired {
        Paired { event: self.event@, commands: commands_of(self.commands@) }
    }
}

pub open spec fn pairs_of(frames: Seq<RecordedFrame>) -> Seq<Paired> {
    frames.map_values(|f: RecordedFrame| f@)
}

/// Each event, with what was recorded between it and the next.
pub open spec fn paired(events: Seq<Numbered>, rows: Seq<Row>) -> Seq<Paired> {
    Seq::new(
        events.len(),
        |i: int|
            Paired {
                event: events[i].1,
                commands: commands_between(
                    rows,
                    events[i].0,
                    until(events, i),
                    rows.len() as int,
                ),
            },
    )
}

/// Walks both lists once, pairing each event with the decisions recorded
/// between it and the next.
pub fn pair(events: Vec<(i64, Event)>, decisions: &[DecisionTuple]) -> (out: Vec<RecordedFrame>)
    requires
        events_in_order(numbered(events@)),
        rows_in_order(tuple_rows(decisions@)),
    ensures
        pairs_of(out@) == paired(numbered(events@), tuple_rows(decisions@)),
{
    let ghost rows = tuple_rows(decisions@);
    let ghost all = numbered(events@);
    let mut next: usize = 0;
    let mut frames: Vec<RecordedFrame> = Vec::new();
    for i in 0..events.len()
        invariant
            rows == tuple_rows(decisions@),
            all == numbered(events@),
            events_in_order(all),
            rows_in_order(rows),
            next <= decisions.len(),
            pairs_of(frames@) == paired(all, rows).take(i as int),
            i > 0 ==> forall|k: int| 0 <= k < next ==> (#[trigger] rows[k]).seq <= all[i - 1].0,
            i == 0 ==> next == 0,
    {
        let seq: i64 = events[i].0;
        proof {
            assert(all[i as int] == (seq as int, events@[i as int].1@));
            if i > 0 {
                assert(all[i - 1].0 <= all[i as int].0);
            }
        }
        // Rows up to this event belong to an earlier one.
        while next < decisions.len() && decisions[next].0 <= seq
            invariant
                rows == tuple_rows(decisions@),
                next <= decisions.len(),
                forall|k: int| 0 <= k < next ==> (#[trigger] rows[k]).seq <= seq,
            decreases decisions.len() - next,
        {
            assert(rows[next as int].seq == decisions@[next as int].0);
            next += 1;
        }
        let until: i64 = if i < events.len() - 1 {
            assert(all[i + 1].0 == events@[i + 1].0);
            events[i + 1].0
        } else {
            i64::MAX
        };
        let mut commands: Vec<(DeviceId, String)> = Vec::new();
        let mut at: usize = next;
        proof {
            nothing_outside(rows, seq as int, until as int, 0, next as int);
            assert(commands_of(commands@) =~= Seq::<Commanded>::empty());
        }
        while at < decisions.len() && decisions[at].0 < until
            invariant
                rows == tuple_rows(decisions@),
                rows_in_order(rows),
                next <= at <= decisions.len(),
                next < decisions.len() ==> rows[next as int].seq > seq,
                commands_of(commands@) == commands_between(
                    rows,
                    seq as int,
                    until as int,
                    at as int,
                ),
            decreases decisions.len() - at,
        {
            proof {
                assert(rows[at as int] == (Row {
                    seq: decisions@[at as int].0 as int,
                    device: seen(decisions@[at as int].1),
                    command: seen(decisions@[at as int].2),
                }));
                if next < at {
                    assert(rows[next as int].seq <= rows[at as int].seq);
                }
            }
            let ghost so_far = commands@;
            if let Some(device) = &decisions[at].1 {
                if let Some(command) = &decisions[at].2 {
                    let entry = (DeviceId::new(device.as_str()), command.clone());
                    commands.push(entry);
                    proof {
                        assert(commands_of(commands@) =~= commands_of(so_far).push(
                            Commanded { device: device@, command: command@ },
                        ));
                    }
                }
            }
            at += 1;
        }
        proof {
            assert forall|k: int| at <= k < rows.len() implies !(seq < (#[trigger] rows[k]).seq
                < until) by {
                assert(rows[at as int].seq == decisions@[at as int].0);
                if at < k {
                    assert(rows[at as int].seq <= rows[k].seq);
                }
            }
            nothing_outside(rows, seq as int, until as int, at as int, rows.len() as int);
        }
        let frame = RecordedFrame { event: events[i].1.clone(), commands };
        let ghost so_far = frames@;
        frames.push(frame);
        proof {
            assert(pairs_of(frames@) =~= pairs_of(so_far).push(frame@));
            assert(paired(all, rows).take(i + 1) =~= paired(all, rows).take(i as int).push(
                frame@,
            ));
        }
    }
    assert(pairs_of(frames@) =~= paired(all, rows));
    frames
}

/// Where events have distinct numbers, a decision recorded after the first of
/// them, under a number of its own, belongs to one frame and to no other.
pub proof fn each_decision_has_one_frame(events: Seq<Numbered>, seq: int, i: int, j: int)
    requires
        forall|a: int, b: int|
            0 <= a < b < events.len() ==> (#[trigger] events[a]).0 < (#[trigger] events[b]).0,
        events.len() > 0,
        events[0].0 < seq < i64::MAX,
        forall|a: int| 0 <= a < events.len() ==> (#[trigger] events[a]).0 != seq,
    ensures
        exists|k: int| 0 <= k < events.len() && events[k].0 < seq < #[trigger] until(events, k),
        0 <= i < events.len() && 0 <= j < events.len() && events[i].0 < seq < until(events, i)
            && events[j].0 < seq < until(events, j) ==> i == j,
{
    frame_exists(events, seq, 0);
    if 0 <= i < events.len() && 0 <= j < events.len() && events[i].0 < seq < until(events, i)
        && events[j].0 < seq < until(events, j) {
        if i < j {
            if i + 1 < j {
                assert(events[i + 1].0 < events[j].0);
            }
        } else if j < i {
            if j + 1 < i {
                assert(events[j + 1].0 < events[i].0);
            }
        }
    }
}

proof fn frame_exists(events: Seq<Numbered>, seq: int, from: int)
    requires
        0 <= from < events.len(),
        events[from].0 < seq < i64::MAX,
        forall|a: int| 0 <= a < events.len() ==> (#[trigger] events[a]).0 != seq,
    ensures
        exists|k: int| 0 <= k < events.len() && events[k].0 < seq < #[trigger] until(events, k),
    decreases events.len() - from,
{
    if from + 1 < events.len() && events[from + 1].0 < seq {
        frame_exists(events, seq, from + 1);
    } else {
        if from + 1 < events.len() {
            assert(events[from + 1].0 != seq);
        }
        assert(events[from].0 < seq < until(events, from));
    }
}

// --- reading a range -----------------------------------------------------------

/// The version of the tables that this build reads and writes.
pub const SCHEMA_VERSION: i64 = 2;

/// What can go wrong reading a journal.
#[derive(Debug, PartialEq)]
pub enum ReadError {
    /// The database refused, in its own words.
    Sql(String),
    /// A column could not be decoded.
    Decode { what: String, source: String },
    /// The file is no journal that this build can read.
    Schema(String),
}

impl ReadError {
    pub open spec fn spec_text(self) -> Seq<char> {
        match self {
            ReadError::Sql(e) => e@,
            ReadError::Decode { what, source } => what@ + " is unreadable: "@ + source@,
            ReadError::Schema(message) => message@,
        }
    }

    pub fn to_string(&self) -> (out: String)
        ensures
            out@ == self.spec_text(),
    {
        match self {
            ReadError::Sql(e) => e.clone(),
            ReadError::Decode { what, source } => {
                let mut out = what.clone();
                out.append(" is unreadable: ");
                out.append(source.as_str());
                out
            },
            ReadError::Schema(message) => message.clone(),
        }
    }
}

/// Refuses a file whose tables this build cannot read.
pub fn check_readable(path: &str, stamped: i64) -> (out: Result<(), ReadError>)
    ensures
        out is Ok <==> stamped == SCHEMA_VERSION,
        out matches Err(e) ==> (e matches ReadError::Schema(message) && message@ == path@
            + " is schema version "@ + signed(stamped as int) + ", this build reads 2"@),
{
    if stamped == SCHEMA_VERSION {
        return Ok(());
    }
    let mut message = path.to_owned();
    message.append(" is schema version ");
    text::push_signed(&mut message, stamped as i128);
    message.append(", this build reads 2");
    Err(ReadError::Schema(message))
}

/// Refuses a file whose tables this build cannot write. A file that carries no
/// version yet is new.
pub fn check_writable(stamped: i64) -> (out: Result<(), String>)
    ensures
        out is Ok <==> stamped == 0 || stamped == SCHEMA_VERSION,
        out matches Err(message) ==> message@ == "database is schema version "@ + signed(
            stamped as int,
        ) + ", this build writes 2"@,
{
    if stamped == 0 || stamped == SCHEMA_VERSION {
        return Ok(());
    }
    let mut message = "database is schema version ".to_owned();
    text::push_signed(&mut message, stamped as i128);
    message.append(", this build writes 2");
    Err(message)
}

/// Where a slice of the journal starts.
#[derive(Debug, Clone, Copy, PartialEq, Eq, Structural)]
pub enum Anchor {
    /// After a recorded snapshot.
    After(i64),
    /// No snapshot was recorded before the range, so it opens at the range
    /// itself.
    From(Timestamp),
}

impl Anchor {
    /// The range opens at the last decision at or before it, where there is
    /// one.
    pub fn of(seed_seq: Option<i64>, from: Timestamp) -> (out: Self)
        ensures
            out == match seed_seq {
                Some(seq) => Anchor::After(seq),
                None => Anchor::From(from),
            },
    {
        match seed_seq {
            Some(seq) => Anchor::After(seq),
            None => Anchor::From(from),
        }
    }

    /// The condition of a query, and its parameter.
    pub fn clause(&self) -> (out: (&'static str, i64))
        ensures
            match *self {
                Anchor::After(seq) => out.0@ == "seq > ?1"@ && out.1 == seq,
                Anchor::From(at) => out.0@ == "ts_ms >= ?1"@ && out.1 == at.ms,
            },
    {
        match self {
            Anchor::After(seq) => ("seq > ?1", *seq),
            Anchor::From(at) => ("ts_ms >= ?1", at.as_millis()),
        }
    }
}

/// An event's row: its number, what it decodes to or why it does not, and the
/// session that wrote it.
#[derive(Debug)]
pub struct EventRow {
    pub seq: i64,
    pub event: Result<Event, String>,
    pub session_id: i64,
}

/// What a range of rows comes to.
#[derive(Debug)]
pub struct Assembly {
    pub frames: Vec<RecordedFrame>,
    /// The session whose tuning governs the range.
    pub session_id: Option<i64>,
    pub warnings: Vec<String>,
}

/// The events among the first `n` rows that decode.
pub open spec fn readable(rows: Seq<EventRow>, n: int) -> Seq<Numbered>
    decreases n,
{
    if n <= 0 {
        Seq::empty()
    } else {
        let front = readable(rows, n - 1);
        match rows[n - 1].event {
            Ok(event) => front.push((rows[n - 1].seq as int, event@)),
            Err(_) => front,
        }
    }
}

/// What is said of the first `n` rows that do not.
pub open spec fn unreadable_warnings(rows: Seq<EventRow>, n: int) -> Seq<Seq<char>>
    decreases n,
{
    if n <= 0 {
        Seq::empty()
    } else {
        let front = unreadable_warnings(rows, n - 1);
        match rows[n - 1].event {
            Ok(_) => front,
            Err(e) => front.push(
                "skipped an unreadable event at seq "@ + signed(rows[n - 1].seq as int) + " ("@
                    + e@ + "); the commands it caused will appear against the event before it"@,
            ),
        }
    }
}

/// The last event is the newest row of the file, so its decision may not have
/// been written yet.
pub open spec fn is_unfinished(events: Seq<Numbered>, head: int) -> bool {
    events.len() > 0 && events.last().0 >= head
}

/// The smallest session among the first `n` rows.
pub open spec fn oldest_session(rows: Seq<EventRow>, n: int) -> Option<int>
    decreases n,
{
    if n <= 0 {
        None
    } else {
        match oldest_session(rows, n - 1) {
            Some(oldest) if oldest <= rows[n - 1].session_id => Some(oldest),
            _ => Some(rows[n - 1].session_id as int),
        }
    }
}

/// The session whose tuning governs a range: the seed's own, or else the
/// oldest among its events.
pub open spec fn governing_session(rows: Seq<EventRow>, seed_session: Option<i64>) -> Option<int> {
    match seed_session {
        Some(id) => Some(id as int),
        None => oldest_session(rows, rows.len() as int),
    }
}

/// Another session than the governing one wrote some of the rows.
pub open spec fn spans_a_restart(rows: Seq<EventRow>, seed_session: Option<i64>) -> bool {
    exists|i: int|
        0 <= i < rows.len() && Some((#[trigger] rows[i]).session_id as int) != governing_session(
            rows,
            seed_session,
        )
}

/// What is said of a range.
pub open spec fn range_warnings(
    rows: Seq<EventRow>,
    head: int,
    seed_session: Option<i64>,
) -> Seq<Seq<char>> {
    let unfinished: Seq<Seq<char>> = if is_unfinished(readable(rows, rows.len() as int), head) {
        seq![
            "dropped the last event: it is the newest row in the journal, so whether it decided anything is not recorded yet"@,
        ]
    } else {
        Seq::empty()
    };
    let restart: Seq<Seq<char>> = if spans_a_restart(rows, seed_session) {
        seq![
            "this range spans a restart: the fixture carries one session's tuning and one session's snapshot, so part of it replays under knobs and history it was not decided with"@,
        ]
    } else {
        Seq::empty()
    };
    unreadable_warnings(rows, rows.len() as int) + unfinished + restart
}

/// The events of a range that can be replayed.
pub open spec fn replayable(rows: Seq<EventRow>, head: int) -> Seq<Numbered> {
    let events = readable(rows, rows.len() as int);
    if is_unfinished(events, head) {
        events.drop_last()
    } else {
        events
    }
}

/// Rows come in the order of their numbers.
pub open spec fn event_rows_in_order(rows: Seq<EventRow>) -> bool {
    forall|i: int, j: int|
        0 <= i < j < rows.len() ==> (#[trigger] rows[i]).seq <= (#[trigger] rows[j]).seq
}

proof fn readable_in_order(rows: Seq<EventRow>, n: int)
    requires
        event_rows_in_order(rows),
        0 <= n <= rows.len(),
    ensures
        events_in_order(readable(rows, n)),
        n > 0 ==> forall|i: int|
            0 <= i < readable(rows, n).len() ==> (#[trigger] readable(rows, n)[i]).0 <= rows[n
                - 1].seq,
    decreases n,
{
    if n > 0 {
        readable_in_order(rows, n - 1);
        if n > 1 {
            assert(rows[n - 2].seq <= rows[n - 1].seq);
        }
    }
}

/// Turns the rows of a range into events paired with their commands. `head` is
/// the highest number in the file.
pub fn assemble(
    rows: &Vec<EventRow>,
    decisions: &[DecisionTuple],
    head: i64,
    seed_session: Option<i64>,
) -> (out: Assembly)
    requires
        event_rows_in_order(rows@),
        rows_in_order(tuple_rows(decisions@)),
    ensures
        pairs_of(out.frames@) == paired(
            replayable(rows@, head as int),
            tuple_rows(decisions@),
        ),
        match out.session_id {
            Some(id) => governing_session(rows@, seed_session) == Some(id as int),
            None => governing_session(rows@, seed_session) is None,
        },
        views(out.warnings@) == range_warnings(rows@, head as int, seed_session),
{
    let mut events: Vec<(i64, Event)> = Vec::new();
    let mut warnings: Vec<String> = Vec::new();
    let mut oldest: Option<i64> = None;
    assert(numbered(events@) =~= Seq::<Numbered>::empty());
    assert(views(warnings@) =~= Seq::<Seq<char>>::empty());
    for i in 0..rows.len()
        invariant
            numbered(events@) == readable(rows@, i as int),
            views(warnings@) == unreadable_warnings(rows@, i as int),
            match oldest {
                Some(id) => oldest_session(rows@, i as int) == Some(id as int),
                None => oldest_session(rows@, i as int) is None,
            },
    {
        let ghost so_far = events@;
        let ghost said = warnings@;
        match &rows[i].event {
            Ok(event) => {
                events.push((rows[i].seq, event.clone()));
                assert(numbered(events@) =~= numbered(so_far).push(
                    (rows@[i as int].seq as int, event@),
                ));
            },
            Err(e) => {
                let mut warning = "skipped an unreadable event at seq ".to_owned();
                text::push_signed(&mut warning, rows[i].seq as i128);
                warning.append(" (");
                warning.append(e.as_str());
                warning.append(
                    "); the commands it caused will appear against the event before it",
                );
                warnings.push(warning);
                assert(views(warnings@) =~= views(said).push(warning@));
            },
        }
        oldest = match oldest {
            Some(id) if id <= rows[i].session_id => Some(id),
            _ => Some(rows[i].session_id),
        };
    }
    proof {
        readable_in_order(rows@, rows@.len() as int);
        assert(numbered(events@).len() == events@.len());
    }
    let ghost all = readable(rows@, rows@.len() as int);
    let ghost said = warnings@;
    if events.len() > 0 {
        assert(all.last().0 == events@.last().0);
    }
    if events.len() > 0 && events[events.len() - 1].0 >= head {
        let ghost before = events@;
        events.pop();
        assert(numbered(events@) =~= all.drop_last());
        warnings.push(
            "dropped the last event: it is the newest row in the journal, so whether it decided anything is not recorded yet".to_owned(),
        );
    }
    let ghost unfinished = warnings@;
    let session_id = match seed_session {
        Some(id) => Some(id),
        None => oldest,
    };
    let mut spans = false;
    for i in 0..rows.len()
        invariant
            match session_id {
                Some(id) => governing_session(rows@, seed_session) == Some(id as int),
                None => governing_session(rows@, seed_session) is None,
            },
            spans == exists|k: int|
                0 <= k < i && Some((#[trigger] rows@[k]).session_id as int) != governing_session(
                    rows@,
                    seed_session,
                ),
    {
        let differs = match session_id {
            Some(id) => id != rows[i].session_id,
            None => true,
        };
        if differs {
            assert(Some(rows@[i as int].session_id as int) != governing_session(
                rows@,
                seed_session,
            ));
            spans = true;
        }
    }
    if spans {
        warnings.push(
            "this range spans a restart: the fixture carries one session's tuning and one session's snapshot, so part of it replays under knobs and history it was not decided with".to_owned(),
        );
    }
    proof {
        assert(views(warnings@) =~= range_warnings(rows@, head as int, seed_session));
    }
    let frames = pair(events, decisions);
    Assembly { frames, session_id, warnings }
}

/// One row of the sessions table.
#[derive(Debug, PartialEq)]
pub struct SessionRow {
    pub version: String,
    pub started_ms: i64,
    pub config_json: String,
}

/// The session row that governs a range. A row that retention has deleted is
/// stood in for by the newest, with a warning.
pub fn session_row(
    session_id: Option<i64>,
    own: Option<SessionRow>,
    newest: Option<SessionRow>,
    warnings: &mut Vec<String>,
) -> (out: Result<SessionRow, ReadError>)
    ensures
        match (session_id, own, newest) {
            (Some(_), Some(row), _) => out == Ok::<SessionRow, ReadError>(row)
                && final(warnings)@ == old(warnings)@,
            (Some(_), None, stand_in) => {
                &&& views(final(warnings)@) == views(old(warnings)@).push(
                    "the session that wrote these rows has been pruned (its row is older than the retention window, which a long-running process outlives); falling back to the newest session's tuning, which may not be what these rows were decided under"@,
                )
                &&& stands_in(stand_in, out)
            },
            (None, _, stand_in) => final(warnings)@ == old(warnings)@ && stands_in(stand_in, out),
        },
{
    if session_id.is_some() {
        if let Some(row) = own {
            return Ok(row);
        }
        let ghost before = warnings@;
        warnings.push(
            "the session that wrote these rows has been pruned (its row is older than the retention window, which a long-running process outlives); falling back to the newest session's tuning, which may not be what these rows were decided under".to_owned(),
        );
        proof {
            let added = warnings@.last();
            assert(views(warnings@) =~= views(before).push(added@));
        }
    }
    match newest {
        Some(row) => Ok(row),
        None => Err(ReadError::Schema("this journal has no sessions recorded".to_owned())),
    }
}

/// The newest session, or the complaint that there is none.
pub open spec fn stands_in(
    newest: Option<SessionRow>,
    out: Result<SessionRow, ReadError>,
) -> bool {
    match newest {
        Some(row) => out == Ok::<SessionRow, ReadError>(row),
        None => out matches Err(e) && (e matches ReadError::Schema(message) && message@
            == "this journal has no sessions recorded"@),
    }
}

/// A recorded run, ready to become a fixture.
#[derive(Debug)]
pub struct Recording {
    pub version: String,
    pub started_at: Timestamp,
    pub config: SessionConfig,
    pub seed: Option<Seed>,
    pub frames: Vec<RecordedFrame>,
    pub warnings: Vec<String>,
}

// --- other readings ------------------------------------------------------------

/// One decision, for a log of them.
#[derive(Debug, PartialEq)]
pub struct DecisionRow {
    pub at: Timestamp,
    pub decision: ControlDecision,
}

/// The decisions among the first `n` rows that decode, the last one first.
pub open spec fn decoded_backwards(
    rows: Seq<(i64, Option<ControlDecision>)>,
    n: int,
) -> Seq<DecisionRow>
    decreases n,
{
    if n <= 0 {
        Seq::empty()
    } else {
        match rows[n - 1].1 {
            Some(decision) => seq![
                DecisionRow { at: Timestamp { ms: rows[n - 1].0 }, decision },
            ] + decoded_backwards(rows, n - 1),
            None => decoded_backwards(rows, n - 1),
        }
    }
}

/// How many of the first `n` rows do not decode.
pub open spec fn undecoded<T>(rows: Seq<(i64, Option<T>)>, n: int) -> nat
    decreases n,
{
    if n <= 0 {
        0
    } else if rows[n - 1].1 is Some {
        undecoded(rows, n - 1)
    } else {
        undecoded(rows, n - 1) + 1
    }
}

/// Turns rows that a query gives newest first into decisions, oldest first. A
/// row that does not decode costs that one entry.
pub fn recent_decisions(rows: Vec<(i64, Option<ControlDecision>)>) -> (out: (
    Vec<DecisionRow>,
    usize,
))
    ensures
        out.0@ == decoded_backwards(rows@, rows@.len() as int),
        out.1 == undecoded(rows@, rows@.len() as int),
{
    let ghost all = rows@;
    let mut rest = rows;
    let mut out: Vec<DecisionRow> = Vec::new();
    let mut skipped: usize = 0;
    assert(rest.len() == all.len());
    while rest.len() > 0
        invariant
            rest@ == all.take(rest@.len() as int),
            rest@.len() <= all.len(),
            out@ + decoded_backwards(all, rest@.len() as int) == decoded_backwards(
                all,
                all.len() as int,
            ),
            skipped + undecoded(all, rest@.len() as int) == undecoded(all, all.len() as int),
            skipped + rest@.len() <= all.len() <= usize::MAX,
        decreases rest.len(),
    {
        let ghost n = rest@.len() as int;
        let ghost so_far = out@;
        if let Some((ts_ms, decoded)) = rest.pop() {
            assert((ts_ms, decoded) == all[n - 1]);
            match decoded {
                Some(decision) => {
                    out.push(DecisionRow { at: Timestamp::from_millis(ts_ms), decision });
                },
                None => {
                    skipped += 1;
                },
            }
            proof {
                assert(rest@ =~= all.take(n - 1));
                assert(out@ + decoded_backwards(all, n - 1) =~= so_far + decoded_backwards(
                    all,
                    n,
                ));
            }
        }
    }
    assert(out@ =~= decoded_backwards(all, all.len() as int));
    (out, skipped)
}

/// The solar production of the first `n` rows that are meter readings.
pub open spec fn solar_of(rows: Seq<(i64, Option<Event>)>, n: int) -> Seq<(i64, SolarPower)>
    decreases n,
{
    if n <= 0 {
        Seq::empty()
    } else {
        let front = solar_of(rows, n - 1);
        match rows[n - 1].1 {
            Some(Event::Meter { solar, .. }) => front.push((rows[n - 1].0, solar)),
            _ => front,
        }
    }
}

/// The solar production that meter readings carry, and how many rows do not
/// decode.
pub fn meter_solar(rows: &Vec<(i64, Option<Event>)>) -> (out: (Vec<(i64, SolarPower)>, usize))
    ensures
        out.0@ == solar_of(rows@, rows@.len() as int),
        out.1 == undecoded(rows@, rows@.len() as int),
{
    let mut out: Vec<(i64, SolarPower)> = Vec::new();
    let mut skipped: usize = 0;
    for i in 0..rows.len()
        invariant
            out@ == solar_of(rows@, i as int),
            skipped == undecoded(rows@, i as int),
            skipped <= i,
    {
        match &rows[i].1 {
            Some(Event::Meter { solar, .. }) => {
                out.push((rows[i].0, *solar));
            },
            Some(_) => {},
            None => {
                skipped += 1;
            },
        }
    }
    (out, skipped)
}

// --- writing -------------------------------------------------------------------

/// One row to be written.
#[derive(Debug)]
pub enum Record {
    Event { at: Timestamp, kind: String, payload_json: String },
    Decision(DecisionRecord),
}

/// One actuated command, or one decision that commanded nothing.
#[derive(Debug)]
pub struct DecisionRecord {
    pub at: Timestamp,
    pub kind: &'static str,
    pub device: Option<String>,
    pub payload_json: String,
    /// The whole state of the engine after the decision.
    pub state_json: String,
    pub command: Option<String>,
    pub outcome: Option<&'static str>,
    pub error: Option<String>,
    /// What the house would have drawn without the battery.
    pub pre_battery_net: GridPower,
}

/// A [`DecisionRecord`] as a mathematical value.
pub struct Entry {
    pub at: Timestamp,
    pub kind: Seq<char>,
    pub device: Option<Seq<char>>,
    pub payload: Seq<char>,
    pub state: Seq<char>,
    pub command: Option<Seq<char>>,
    pub outcome: Option<Seq<char>>,
    pub error: Option<Seq<char>>,
    pub net_mw: int,
}

impl View for DecisionRecord {
    type V = Entry;

    open spec fn view(&self) -> Entry {
        Entry {
            at: self.at,
            kind: self.kind@,
            device: seen(self.device),
            payload: self.payload_json@,
            state: self.state_json@,
            command: seen(self.command),
            outcome: match self.outcome {
                Some(outcome) => Some(outcome@),
                None => None,
            },
            error: seen(self.error),
            net_mw: self.pre_battery_net.mw as int,
        }
    }
}

pub open spec fn entries(records: Seq<DecisionRecord>) -> Seq<Entry> {
    records.map_values(|r: DecisionRecord| r@)
}

/// The row of an event: its own time and kind.
pub fn event_record(event: &Event, payload_json: String) -> (out: Record)
    ensures
        out matches Record::Event { at, kind, payload_json: payload } && at == event@.clock().now
            && kind@ == event@.kind() && payload == payload_json,
{
    Record::Event { at: event.at(), kind: event.kind().to_owned(), payload_json }
}

/// The row of a payload that is recorded before anything has parsed it.
pub fn raw_record(kind: &str, payload: &str, now: Timestamp) -> (out: Record)
    ensures
        out matches Record::Event { at, kind: named, payload_json } && at == now && named@ == kind@
            && payload_json@ == stored(payload@),
{
    Record::Event { at: now, kind: kind.to_owned(), payload_json: json::stored_payload(payload) }
}

/// The rows of a decision: one per device that was commanded, with its own
/// outcome, or a single one without a device.
pub open spec fn decision_entries(
    at: Timestamp,
    path: ControlPath,
    state: EngineState,
    payload: Seq<char>,
    state_json: Seq<char>,
    outcomes: Seq<Outcome>,
) -> Seq<Entry> {
    let blank = Entry {
        at,
        kind: path.spec_journal_kind(),
        device: None,
        payload,
        state: state_json,
        command: None,
        outcome: None,
        error: None,
        net_mw: state@.house.underlying_grid(),
    };
    if outcomes.len() == 0 {
        seq![blank]
    } else {
        Seq::new(
            outcomes.len(),
            |i: int|
                Entry {
                    device: Some(outcomes[i].device@),
                    command: Some(outcomes[i].command@),
                    outcome: Some(outcomes[i].applied.spec_str()),
                    error: seen(outcomes[i].error),
                    ..blank
                },
        )
    }
}

/// The rows of a decision.
pub fn decision_records(
    at: Timestamp,
    path: ControlPath,
    state: &EngineState,
    payload_json: &str,
    state_json: &str,
    outcomes: &[Outcome],
) -> (out: Vec<DecisionRecord>)
    ensures
        entries(out@) == decision_entries(
            at,
            path,
            *state,
            payload_json@,
            state_json@,
            outcomes@,
        ),
{
    let pre_battery_net = state.world.underlying_grid();
    let ghost whole = decision_entries(at, path, *state, payload_json@, state_json@, outcomes@);
    let mut out: Vec<DecisionRecord> = Vec::new();
    if outcomes.len() == 0 {
        let record = DecisionRecord {
            at,
            kind: path.journal_kind(),
            device: None,
            payload_json: payload_json.to_owned(),
            state_json: state_json.to_owned(),
            command: None,
            outcome: None,
            error: None,
            pre_battery_net,
        };
        out.push(record);
        assert(entries(out@) =~= whole);
        return out;
    }
    for i in 0..outcomes.len()
        invariant
            whole == decision_entries(
                at,
                path,
                *state,
                payload_json@,
                state_json@,
                outcomes@,
            ),
            outcomes@.len() > 0,
            pre_battery_net.mw == state@.house.underlying_grid(),
            entries(out@) == whole.take(i as int),
    {
        let error = match &outcomes[i].error {
            Some(e) => Some(e.clone()),
            None => None,
        };
        let record = DecisionRecord {
            at,
            kind: path.journal_kind(),
            device: Some(outcomes[i].device.as_str().to_owned()),
            payload_json: payload_json.to_owned(),
            state_json: state_json.to_owned(),
            command: Some(outcomes[i].command.clone()),
            outcome: Some(outcomes[i].applied.as_str()),
            error,
            pre_battery_net,
        };
        let ghost so_far = out@;
        out.push(record);
        proof {
            assert(entries(out@) =~= entries(so_far).push(record@));
            assert(whole.take(i + 1) =~= whole.take(i as int).push(record@));
        }
    }
    assert(entries(out@) =~= whole);
    out
}

/// A decision always leaves a row, and never more than one per device.
pub proof fn a_decision_always_leaves_a_row(
    at: Timestamp,
    path: ControlPath,
    state: EngineState,
    payload: Seq<char>,
    state_json: Seq<char>,
    outcomes: Seq<Outcome>,
)
    ensures
        ({
            let rows = decision_entries(at, path, state, payload, state_json, outcomes);
            &&& rows.len() == if outcomes.len() == 0 {
                1
            } else {
                outcomes.len()
            }
            &&& forall|i: int|
                0 <= i < rows.len() ==> (#[trigger] rows[i]).kind == path.spec_journal_kind()
                    && rows[i].at == at && rows[i].state == state_json
        }),
{
}

/// A value of a row.
#[derive(Debug, PartialEq)]
pub enum Field {
    Integer(i64),
    Text(String),
    Missing,
    /// A power, in milliwatts, which the database holds in watts.
    Power(i64),
}

/// A [`Field`] as a mathematical value.
pub enum Cell {
    Integer(int),
    Text(Seq<char>),
    Missing,
    Power(int),
}

impl View for Field {
    type V = Cell;

    open spec fn view(&self) -> Cell {
        match *self {
            Field::Integer(n) => Cell::Integer(n as int),
            Field::Text(s) => Cell::Text(s@),
            Field::Missing => Cell::Missing,
            Field::Power(mw) => Cell::Power(mw as int),
        }
    }
}

pub open spec fn cells(fields: Seq<Field>) -> Seq<Cell> {
    fields.map_values(|f: Field| f@)
}

/// A row to be inserted: the table, its columns, and a value for each.
#[derive(Debug)]
pub struct Insert {
    pub table: &'static str,
    pub columns: &'static str,
    pub fields: Vec<Field>,
}

pub open spec fn optional_cell(text: Option<Seq<char>>) -> Cell {
    match text {
        Some(text) => Cell::Text(text),
        None => Cell::Missing,
    }
}

/// The values of an event's row.
pub open spec fn event_cells(
    session_id: int,
    seq: int,
    at: Timestamp,
    kind: Seq<char>,
    payload: Seq<char>,
) -> Seq<Cell> {
    seq![
        Cell::Integer(session_id),
        Cell::Integer(seq),
        Cell::Integer(at.ms as int),
        Cell::Text(kind),
        Cell::Text(payload),
    ]
}

/// The values of a decision's row.
pub open spec fn decision_cells(session_id: int, seq: int, entry: Entry) -> Seq<Cell> {
    seq![
        Cell::Integer(session_id),
        Cell::Integer(seq),
        Cell::Integer(entry.at.ms as int),
        optional_cell(entry.device),
        Cell::Text(entry.kind),
        Cell::Text(entry.payload),
        Cell::Text(entry.state),
        optional_cell(entry.command),
        optional_cell(entry.outcome),
        optional_cell(entry.error),
        Cell::Power(entry.net_mw),
    ]
}

fn optional_field(text: &Option<String>) -> (out: Field)
    ensures
        out@ == optional_cell(seen(*text)),
{
    match text {
        Some(text) => Field::Text(text.clone()),
        None => Field::Missing,
    }
}

/// The row of a record, under the number that it was given.
pub fn write(session_id: i64, seq: i64, record: &Record) -> (out: Insert)
    ensures
        match *record {
            Record::Event { at, kind, payload_json } => {
                &&& out.table@ == "events"@
                &&& out.columns@ == "session_id, seq, ts_ms, kind, payload_json"@
                &&& cells(out.fields@) == event_cells(
                    session_id as int,
                    seq as int,
                    at,
                    kind@,
                    payload_json@,
                )
            },
            Record::Decision(row) => {
                &&& out.table@ == "decisions"@
                &&& out.columns@
                    == "session_id, seq, ts_ms, device, kind, payload_json, state_json, command, outcome, error, pre_battery_net_w"@
                &&& cells(out.fields@) == decision_cells(session_id as int, seq as int, row@)
            },
        },
{
    let mut fields: Vec<Field> = Vec::new();
    fields.push(Field::Integer(session_id));
    fields.push(Field::Integer(seq));
    match record {
        Record::Event { at, kind, payload_json } => {
            fields.push(Field::Integer(at.as_millis()));
            fields.push(Field::Text(kind.clone()));
            fields.push(Field::Text(payload_json.clone()));
            assert(cells(fields@) =~= event_cells(
                session_id as int,
                seq as int,
                *at,
                kind@,
                payload_json@,
            ));
            Insert { table: "events", columns: "session_id, seq, ts_ms, kind, payload_json", fields }
        },
        Record::Decision(row) => {
            fields.push(Field::Integer(row.at.as_millis()));
            fields.push(optional_field(&row.device));
            fields.push(Field::Text(row.kind.to_owned()));
            fields.push(Field::Text(row.payload_json.clone()));
            fields.push(Field::Text(row.state_json.clone()));
            fields.push(optional_field(&row.command));
            fields.push(
                match row.outcome {
                    Some(outcome) => Field::Text(outcome.to_owned()),
                    None => Field::Missing,
                },
            );
            fields.push(optional_field(&row.error));
            fields.push(Field::Power(row.pre_battery_net.mw));
            assert(cells(fields@) =~= decision_cells(session_id as int, seq as int, row@));
            Insert {
                table: "decisions",
                columns: "session_id, seq, ts_ms, device, kind, payload_json, state_json, command, outcome, error, pre_battery_net_w",
                fields,
            }
        },
    }
}

/// What the thread that writes keeps: the session it writes for, the next
/// number, how many writes failed, and the day it last pruned on.
#[derive(Debug, Clone, Copy, PartialEq, Eq, Structural)]
pub struct Sequencer {
    pub session_id: i64,
    pub next_seq: i64,
    pub failed: u64,
    pub last_prune_day: i64,
}

/// What to do for one record.
#[derive(Debug, Clone, Copy, PartialEq, Eq, Structural)]
pub struct Turn {
    /// The number of the row.
    pub seq: i64,
    /// Whether the day has changed, so that old rows are to go.
    pub prune: bool,
}

impl Sequencer {
    /// Numbers go on from the highest in the file, whichever session wrote it.
    pub fn new(session_id: i64, highest: Option<i64>, today: i64) -> (out: Self)
        ensures
            out.session_id == session_id,
            out.next_seq == match highest {
                Some(seq) if seq < i64::MAX => seq + 1,
                Some(seq) => seq as int,
                None => 1int,
            },
            out.failed == 0,
            out.last_prune_day == today,
    {
        let next_seq: i64 = match highest {
            Some(seq) => if seq < i64::MAX {
                seq + 1
            } else {
                seq
            },
            None => 1,
        };
        Sequencer { session_id, next_seq, failed: 0, last_prune_day: today }
    }

    /// Takes a number for one record. A number is used up whether or not the
    /// write succeeds: a failure leaves a gap, never a number twice.
    pub fn take(&mut self, today: i64) -> (out: Turn)
        requires
            old(self).next_seq < i64::MAX,
        ensures
            (out, *final(self)) == taken(*old(self), today),
    {
        let seq: i64 = self.next_seq;
        self.next_seq = seq + 1;
        let prune = today != self.last_prune_day;
        self.last_prune_day = today;
        Turn { seq, prune }
    }
}

/// What one record gets, and what is kept then.
pub open spec fn taken(before: Sequencer, today: i64) -> (Turn, Sequencer) {
    (
        Turn { seq: before.next_seq, prune: today != before.last_prune_day },
        Sequencer {
            next_seq: (before.next_seq + 1) as i64,
            last_prune_day: today,
            ..before
        },
    )
}

/// What is kept once records have come in on these days.
pub open spec fn taken_all(before: Sequencer, days: Seq<i64>) -> Sequencer
    decreases days.len(),
{
    if days.len() == 0 {
        before
    } else {
        taken(taken_all(before, days.drop_last()), days.last()).1
    }
}

/// Numbers rise by one from record to record, and so order both tables against
/// each other, as long as they last.
pub proof fn numbers_rise_by_one(before: Sequencer, days: Seq<i64>, today: i64)
    requires
        before.next_seq + days.len() < i64::MAX,
    ensures
        taken(taken_all(before, days), today).0.seq == before.next_seq + days.len(),
        taken_all(before, days).session_id == before.session_id,
    decreases days.len(),
{
    if days.len() > 0 {
        numbers_rise_by_one(before, days.drop_last(), days.last());
    }
}

/// Old rows are dropped once a day: on the first record of a day that is not the
/// day of the one before.
pub proof fn pruning_is_once_a_day(before: Sequencer, today: i64)
    ensures
        !taken(taken(before, today).1, today).0.prune,
{
}

impl Sequencer {
    /// Notes that a write failed. Gives the count so far when it is worth a line
    /// in the log: a full disk fails every write, and a line for each would be a
    /// flood.
    pub fn write_failed(&mut self) -> (report: Option<u64>)
        requires
            old(self).failed < u64::MAX,
        ensures
            *final(self) == (Sequencer { failed: (old(self).failed + 1) as u64, ..*old(self) }),
            report == if is_power_of_two(old(self).failed + 1) {
                Some((old(self).failed + 1) as u64)
            } else {
                None
            },
    {
        let mut failed: u64 = self.failed;
        let report = tally(&mut failed);
        self.failed = failed;
        report
    }
}

/// Rows to be deleted: those of a table whose time lies before an instant,
/// except one.
#[derive(Debug, Clone, Copy, PartialEq, Eq)]
pub struct Deletion {
    pub table: &'static str,
    pub column: &'static str,
    pub before_ms: i64,
    pub spare_id: Option<i64>,
}

/// What goes once it is beyond the retention window: events, decisions and
/// sessions, but never the row of the session that is running.
pub fn prune(retention: RetentionDays, now: Timestamp, keep_session: i64) -> (out: [Deletion; 3])
    ensures
        out@[0].table@ == "events"@ && out@[0].column@ == "ts_ms"@ && out@[0].spare_id is None,
        out@[1].table@ == "decisions"@ && out@[1].column@ == "ts_ms"@ && out@[1].spare_id is None,
        out@[2].table@ == "sessions"@ && out@[2].column@ == "started_ms"@ && out@[2].spare_id
            == Some(keep_session),
        forall|i: int|
            0 <= i < 3 ==> (#[trigger] out@[i]).before_ms == crate::units::saturated_i64(
                now.ms - retention@ * 86_400_000,
            ),
{
    let before_ms: i64 = retention.cutoff(now).as_millis();
    [
        Deletion { table: "events", column: "ts_ms", before_ms, spare_id: None },
        Deletion { table: "decisions", column: "ts_ms", before_ms, spare_id: None },
        Deletion {
            table: "sessions",
            column: "started_ms",
            before_ms,
            spare_id: Some(keep_session),
        },
    ]
}

/// Which kind of row a decision leaves.
#[derive(Debug, Clone, Copy, PartialEq, Eq, Structural)]
pub enum DecisionKind {
    Decision,
    Failsafe,
}

impl DecisionKind {
    pub open spec fn spec_str(self) -> Seq<char> {
        match self {
            DecisionKind::Decision => "decision"@,
            DecisionKind::Failsafe => "failsafe"@,
        }
    }

    pub fn as_str(self) -> (out: &'static str)
        ensures
            out@ == self.spec_str(),
    {
        match self {
            DecisionKind::Decision => "decision",
            DecisionKind::Failsafe => "failsafe",
        }
    }
}

// --- laws ----------------------------------------------------------------------

/// A command counts for a range when it was recorded after its beginning and before its
/// end, and names a device and a command. The commands stand in the order of the rows.
pub proof fn a_command_counts_between(
    rows: Seq<Row>,
    after: int,
    until: int,
    n: int,
    device: Seq<char>,
    command: Seq<char>,
)
    requires
        0 <= n < rows.len(),
    ensures
        after < rows[n].seq && rows[n].seq < until && rows[n].device == Some(device)
            && rows[n].command == Some(command) ==> commands_between(rows, after, until, n + 1)
            == commands_between(rows, after, until, n) + seq![Commanded { device, command }],
        rows[n].seq <= after || rows[n].seq >= until || rows[n].device is None
            || rows[n].command is None ==> commands_between(rows, after, until, n + 1)
            == commands_between(rows, after, until, n),
        commands_between(rows, after, until, 0).len() == 0,
{
    let front = commands_between(rows, after, until, n);
    assert(front + seq![Commanded { device, command }] =~= front.push(
        Commanded { device, command },
    ));
}

/// What belongs to an event ends with the next, and with the last never.
pub proof fn an_event_lasts_until_the_next(events: Seq<Numbered>, i: int)
    requires
        0 <= i < events.len(),
    ensures
        i + 1 < events.len() ==> until(events, i) == events[i + 1].0,
        i + 1 == events.len() ==> until(events, i) == 0x7fff_ffff_ffff_ffff,
{
}

/// The same of a slice.
pub proof fn an_event_of_a_slice_lasts_until_the_next(slice: Slice, i: int)
    requires
        0 <= i < slice.events@.len(),
    ensures
        i + 1 < slice.events@.len() ==> slice.until(i) == slice.events@[i + 1].seq,
        i + 1 == slice.events@.len() ==> slice.until(i) == 0x7fff_ffff_ffff_ffff,
{
}

/// Each event has its frame, in order, with what was recorded after it and before the
/// next.
pub proof fn each_event_has_its_frame(events: Seq<Numbered>, rows: Seq<Row>, i: int)
    requires
        0 <= i < events.len(),
    ensures
        paired(events, rows).len() == events.len(),
        paired(events, rows)[i].event == events[i].1,
        i + 1 < events.len() ==> paired(events, rows)[i].commands == commands_between(
            rows,
            events[i].0,
            events[i + 1].0,
            rows.len() as int,
        ),
        i + 1 == events.len() ==> paired(events, rows)[i].commands == commands_between(
            rows,
            events[i].0,
            0x7fff_ffff_ffff_ffff,
            rows.len() as int,
        ),
{
}

/// A file is read when its tables are of the version of this build, and written when they
/// are or when it is new.
pub proof fn a_file_is_of_its_version(
    path: &str,
    stamped: i64,
    read: Result<(), ReadError>,
    written: Result<(), String>,
)
    requires
        call_ensures(check_readable, (path, stamped), read),
        call_ensures(check_writable, (stamped,), written),
    ensures
        read is Ok <==> stamped == 2,
        written is Ok <==> stamped == 2 || stamped == 0,
        read matches Err(e) ==> e.spec_text() == path@ + " is schema version "@ + signed(
            stamped as int,
        ) + ", this build reads 2"@,
        written matches Err(e) ==> e@ == "database is schema version "@ + signed(stamped as int)
            + ", this build writes 2"@,
{
}

/// What cannot be decoded is named, with the reason behind it.
pub proof fn what_cannot_be_decoded_is_named(what: String, source: String)
    ensures
        (ReadError::Decode { what, source }).spec_text() == what@ + " is unreadable: "@ + source@,
        ReadError::Sql(source).spec_text() == source@,
        ReadError::Schema(source).spec_text() == source@,
{
}

/// A range opens behind the last snapshot before it, by number; without one, at its own
/// time, which counts in.
pub proof fn a_range_opens_behind_its_snapshot(
    seed: i64,
    from: Timestamp,
    behind: Anchor,
    alone: Anchor,
    by_number: (&'static str, i64),
    by_time: (&'static str, i64),
)
    requires
        call_ensures(Anchor::of, (Some(seed), from), behind),
        call_ensures(Anchor::of, (None, from), alone),
        call_ensures(Anchor::clause, (&behind,), by_number),
        call_ensures(Anchor::clause, (&alone,), by_time),
    ensures
        by_number.0@ == "seq > ?1"@,
        by_number.1 == seed,
        by_time.0@ == "ts_ms >= ?1"@,
        by_time.1 == from.ms,
{
}

/// A row that decodes is an event under its number; one that does not is skipped, and
/// named with its number and the reason. So every row is one or the other.
pub proof fn every_row_is_read_or_named(rows: Seq<EventRow>, n: int)
    requires
        0 <= n < rows.len(),
    ensures
        rows[n].event matches Ok(event) ==> readable(rows, n + 1) == readable(rows, n) + seq![
            (rows[n].seq as int, event@),
        ] && unreadable_warnings(rows, n + 1) == unreadable_warnings(rows, n),
        rows[n].event matches Err(e) ==> readable(rows, n + 1) == readable(rows, n)
            && unreadable_warnings(rows, n + 1) == unreadable_warnings(rows, n) + seq![
            "skipped an unreadable event at seq "@ + signed(rows[n].seq as int) + " ("@ + e@
                + "); the commands it caused will appear against the event before it"@,
        ],
        readable(rows, 0).len() == 0,
        unreadable_warnings(rows, 0).len() == 0,
{
    if let Ok(event) = rows[n].event {
        assert(readable(rows, n + 1) =~= readable(rows, n) + seq![(rows[n].seq as int, event@)]);
    } else if let Err(e) = rows[n].event {
        assert(unreadable_warnings(rows, n + 1) =~= unreadable_warnings(rows, n) + seq![
            "skipped an unreadable event at seq "@ + signed(rows[n].seq as int) + " ("@ + e@
                + "); the commands it caused will appear against the event before it"@,
        ]);
    }
}

/// An event is left out when it is the newest row of the file, and only the last can be.
pub proof fn only_the_newest_row_is_left_out(rows: Seq<EventRow>, head: int)
    ensures
        ({
            let events = readable(rows, rows.len() as int);
            &&& events.len() > 0 && events[events.len() - 1].0 >= head ==> replayable(rows, head)
                == events.take(events.len() - 1)
            &&& events.len() > 0 && events[events.len() - 1].0 < head ==> replayable(rows, head)
                == events
            &&& events.len() == 0 ==> replayable(rows, head).len() == 0
        }),
{
    let events = readable(rows, rows.len() as int);
    if events.len() > 0 {
        assert(events.drop_last() =~= events.take(events.len() - 1));
    }
}

/// The oldest session is one of those that wrote the rows, and none of them is older.
pub proof fn the_oldest_session_is_the_smallest(rows: Seq<EventRow>, n: int)
    requires
        0 <= n <= rows.len(),
    ensures
        n > 0 ==> oldest_session(rows, n) is Some,
        n == 0 ==> oldest_session(rows, n) is None,
        oldest_session(rows, n) matches Some(oldest) ==> (forall|k: int|
            0 <= k < n ==> oldest <= (#[trigger] rows[k]).session_id),
        oldest_session(rows, n) matches Some(oldest) ==> (exists|k: int|
            0 <= k < n && oldest == (#[trigger] rows[k]).session_id),
    decreases n,
{
    if n > 0 {
        the_oldest_session_is_the_smallest(rows, n - 1);
        assert(rows[n - 1].session_id == rows[n - 1].session_id);
        if let Some(earlier) = oldest_session(rows, n - 1) {
            let k = choose|k: int| 0 <= k < n - 1 && earlier == (#[trigger] rows[k]).session_id;
            assert(earlier == rows[k].session_id);
        }
    }
}

/// The session of the snapshot governs a range; without one, the oldest that wrote in it.
/// A range spans a restart when some other session wrote in it.
pub proof fn one_session_governs_a_range(rows: Seq<EventRow>, seed: i64)
    ensures
        governing_session(rows, Some(seed)) == Some(seed as int),
        governing_session(rows, None) == oldest_session(rows, rows.len() as int),
        spans_a_restart(rows, Some(seed)) <==> exists|i: int|
            0 <= i < rows.len() && (#[trigger] rows[i]).session_id != seed,
        spans_a_restart(rows, None) <==> exists|i: int, k: int|
            0 <= i < rows.len() && 0 <= k < rows.len() && (#[trigger] rows[i]).session_id != (
            #[trigger] rows[k]).session_id,
{
    the_oldest_session_is_the_smallest(rows, rows.len() as int);
    if let Some(oldest) = oldest_session(rows, rows.len() as int) {
        let k = choose|k: int|
            0 <= k < rows.len() && oldest == (#[trigger] rows[k]).session_id;
        if spans_a_restart(rows, None) {
            let i = choose|i: int|
                0 <= i < rows.len() && Some((#[trigger] rows[i]).session_id as int)
                    != governing_session(rows, None);
            assert(rows[i].session_id != rows[k].session_id);
        }
        if exists|i: int, k: int|
            0 <= i < rows.len() && 0 <= k < rows.len() && (#[trigger] rows[i]).session_id != (
            #[trigger] rows[k]).session_id {
            let (i, j) = choose|i: int, j: int|
                0 <= i < rows.len() && 0 <= j < rows.len() && (#[trigger] rows[i]).session_id != (
                #[trigger] rows[j]).session_id;
            assert(Some(rows[i].session_id as int) != governing_session(rows, None) || Some(
                rows[j].session_id as int,
            ) != governing_session(rows, None));
        }
    }
    if exists|i: int| 0 <= i < rows.len() && (#[trigger] rows[i]).session_id != seed {
        let i = choose|i: int| 0 <= i < rows.len() && (#[trigger] rows[i]).session_id != seed;
        assert(Some(rows[i].session_id as int) != governing_session(rows, Some(seed)));
    }
}

/// A range is warned of once for each row that does not decode, once for an event that is
/// left out, and once for a restart, in that order.
pub proof fn a_range_is_warned_of(rows: Seq<EventRow>, head: int, seed: Option<i64>)
    ensures
        ({
            let said = range_warnings(rows, head, seed);
            let skipped = unreadable_warnings(rows, rows.len() as int);
            let events = readable(rows, rows.len() as int);
            let left_out = events.len() > 0 && events[events.len() - 1].0 >= head;
            &&& said.len() == skipped.len() + (if left_out {
                1int
            } else {
                0
            }) + (if spans_a_restart(rows, seed) {
                1int
            } else {
                0
            })
            &&& said.take(skipped.len() as int) == skipped
            &&& left_out ==> said[skipped.len() as int]
                == "dropped the last event: it is the newest row in the journal, so whether it decided anything is not recorded yet"@
            &&& spans_a_restart(rows, seed) ==> said[said.len() - 1]
                == "this range spans a restart: the fixture carries one session's tuning and one session's snapshot, so part of it replays under knobs and history it was not decided with"@
        }),
{
    let said = range_warnings(rows, head, seed);
    let skipped = unreadable_warnings(rows, rows.len() as int);
    assert(said.take(skipped.len() as int) =~= skipped);
}

/// The newest session stands in for one that is gone; a journal without any is refused.
pub proof fn the_newest_session_stands_in(
    newest: Option<SessionRow>,
    out: Result<SessionRow, ReadError>,
)
    requires
        stands_in(newest, out),
    ensures
        newest matches Some(row) ==> out == Ok::<SessionRow, ReadError>(row),
        newest is None ==> (out matches Err(e) && e.spec_text()
            == "this journal has no sessions recorded"@),
{
}

/// Rows that come newest first are listed oldest first: each further one goes before all
/// that came. One that does not decode is counted.
pub proof fn decisions_are_listed_oldest_first(
    rows: Seq<(i64, Option<ControlDecision>)>,
    n: int,
)
    requires
        0 <= n < rows.len(),
    ensures
        rows[n].1 matches Some(decision) ==> {
            let listed = decoded_backwards(rows, n + 1);
            &&& listed.len() > 0
            &&& listed[0].at.ms == rows[n].0
            &&& listed[0].decision == decision
            &&& listed.skip(1) == decoded_backwards(rows, n)
            &&& undecoded(rows, n + 1) == undecoded(rows, n)
        },
        rows[n].1 is None ==> decoded_backwards(rows, n + 1) == decoded_backwards(rows, n)
            && undecoded(rows, n + 1) == undecoded(rows, n) + 1,
        decoded_backwards(rows, 0).len() == 0,
        undecoded(rows, 0) == 0,
{
    if let Some(decision) = rows[n].1 {
        let listed = decoded_backwards(rows, n + 1);
        assert(listed.skip(1) =~= decoded_backwards(rows, n));
    }
}

/// The sun of each meter reading is given with its time, and of no other row.
pub proof fn the_sun_comes_from_meter_readings(rows: Seq<(i64, Option<Event>)>, n: int)
    requires
        0 <= n < rows.len(),
    ensures
        rows[n].1 matches Some(Event::Meter { solar, .. }) ==> solar_of(rows, n + 1) == solar_of(
            rows,
            n,
        ) + seq![(rows[n].0, solar)],
        !(rows[n].1 matches Some(Event::Meter { .. })) ==> solar_of(rows, n + 1) == solar_of(
            rows,
            n,
        ),
        solar_of(rows, 0).len() == 0,
{
    if let Some(Event::Meter { solar, .. }) = rows[n].1 {
        assert(solar_of(rows, n + 1) =~= solar_of(rows, n) + seq![(rows[n].0, solar)]);
    }
}

/// An event's row has its time, its kind and its payload; a capture's, the time at which
/// it came.
pub proof fn a_row_has_the_time_of_its_event(
    event: Event,
    payload: String,
    out: Record,
    kind: &str,
    raw: &str,
    now: Timestamp,
    captured: Record,
)
    requires
        call_ensures(event_record, (&event, payload), out),
        call_ensures(raw_record, (kind, raw, now), captured),
    ensures
        out matches Record::Event { at, kind, payload_json } && at == event@.clock().now && kind@
            == event@.kind() && payload_json@ == payload@,
        captured matches Record::Event { at, kind: named, payload_json } && at == now && named@
            == kind@ && payload_json@ == stored(raw@),
{
}

/// A row of a decision has what became of one command: its device, the command, how it
/// went and what was said. A decision that commanded nothing has none of these. Each has
/// the power that the house would have drawn without its battery.
pub proof fn a_row_has_its_outcome(
    at: Timestamp,
    path: ControlPath,
    state: EngineState,
    payload: Seq<char>,
    state_json: Seq<char>,
    outcomes: Seq<Outcome>,
    i: int,
)
    requires
        0 <= i < decision_entries(at, path, state, payload, state_json, outcomes).len(),
    ensures
        ({
            let row = decision_entries(at, path, state, payload, state_json, outcomes)[i];
            &&& row.payload == payload
            &&& row.state == state_json
            &&& row.net_mw == state@.house.underlying_grid()
            &&& outcomes.len() == 0 ==> row.device is None && row.command is None
                && row.outcome is None && row.error is None
            &&& outcomes.len() > 0 ==> {
                &&& row.device == Some(outcomes[i].device@)
                &&& row.command == Some(outcomes[i].command@)
                &&& row.outcome == Some(outcomes[i].applied.spec_str())
                &&& outcomes[i].error matches Some(e) ==> row.error == Some(e@)
                &&& outcomes[i].error is None ==> row.error is None
            }
        }),
{
}

/// An event's row goes into the table of events, each value under the column of its name.
pub proof fn the_columns_of_an_event(
    session_id: i64,
    seq: i64,
    record: Record,
    out: Insert,
)
    requires
        call_ensures(write, (session_id, seq, &record), out),
        record is Event,
    ensures
        out.table@ == "events"@,
        out.columns@ == "session_id, seq, ts_ms, kind, payload_json"@,
        out.fields@.len() == 5,
        out.fields@[0]@ == Cell::Integer(session_id as int),
        out.fields@[1]@ == Cell::Integer(seq as int),
        record matches Record::Event { at, kind, payload_json } ==> {
            &&& out.fields@[2]@ == Cell::Integer(at.ms as int)
            &&& out.fields@[3]@ == Cell::Text(kind@)
            &&& out.fields@[4]@ == Cell::Text(payload_json@)
        },
{
    let all = cells(out.fields@);
    assert(all.len() == out.fields@.len());
    assert(all[0] == out.fields@[0]@ && all[1] == out.fields@[1]@ && all[2] == out.fields@[2]@);
    assert(all[3] == out.fields@[3]@ && all[4] == out.fields@[4]@);
}

/// A decision's row goes into the table of decisions, each value under the column of its
/// name.
pub proof fn the_columns_of_a_decision(
    session_id: i64,
    seq: i64,
    record: Record,
    row: DecisionRecord,
    out: Insert,
)
    requires
        call_ensures(write, (session_id, seq, &record), out),
        record == Record::Decision(row),
    ensures
        out.table@ == "decisions"@,
        out.columns@
            == "session_id, seq, ts_ms, device, kind, payload_json, state_json, command, outcome, error, pre_battery_net_w"@,
        out.fields@.len() == 11,
        out.fields@[0]@ == Cell::Integer(session_id as int),
        out.fields@[1]@ == Cell::Integer(seq as int),
        out.fields@[2]@ == Cell::Integer(row.at.ms as int),
        row.device matches Some(device) ==> out.fields@[3]@ == Cell::Text(device@),
        row.device is None ==> out.fields@[3]@ == Cell::Missing,
        out.fields@[4]@ == Cell::Text(row.kind@),
        out.fields@[5]@ == Cell::Text(row.payload_json@),
        out.fields@[6]@ == Cell::Text(row.state_json@),
        row.command matches Some(command) ==> out.fields@[7]@ == Cell::Text(command@),
        row.command is None ==> out.fields@[7]@ == Cell::Missing,
        row.outcome matches Some(outcome) ==> out.fields@[8]@ == Cell::Text(outcome@),
        row.outcome is None ==> out.fields@[8]@ == Cell::Missing,
        row.error matches Some(error) ==> out.fields@[9]@ == Cell::Text(error@),
        row.error is None ==> out.fields@[9]@ == Cell::Missing,
        out.fields@[10]@ == Cell::Power(row.pre_battery_net.mw as int),
{
    let all = cells(out.fields@);
    assert(all.len() == out.fields@.len());
    assert(all[0] == out.fields@[0]@ && all[1] == out.fields@[1]@ && all[2] == out.fields@[2]@);
    assert(all[3] == out.fields@[3]@ && all[4] == out.fields@[4]@ && all[5] == out.fields@[5]@);
    assert(all[6] == out.fields@[6]@ && all[7] == out.fields@[7]@ && all[8] == out.fields@[8]@);
    assert(all[9] == out.fields@[9]@ && all[10] == out.fields@[10]@);
}

/// Numbers go on from the highest of the file, and begin with one in a new file. Each is
/// taken once, and old rows are to go exactly when the day has changed.
pub proof fn numbers_go_on(
    session_id: i64,
    highest: i64,
    today: i64,
    first: Sequencer,
    next: Sequencer,
    day: i64,
)
    requires
        call_ensures(Sequencer::new, (session_id, None, today), first),
        call_ensures(Sequencer::new, (session_id, Some(highest), today), next),
        highest < i64::MAX - 1,
    ensures
        first.next_seq == 1,
        first.session_id == session_id && next.session_id == session_id,
        first.failed == 0 && next.failed == 0,
        first.last_prune_day == today && next.last_prune_day == today,
        taken(next, day).0.seq == highest + 1,
        taken(next, day).0.prune <==> day != today,
        taken(taken(next, day).1, day).0.seq == highest + 2,
        taken(next, day).1.session_id == session_id,
        taken(next, day).1.failed == 0,
{
}

/// What lies beyond the window goes, by its time, from every table; of the sessions, all
/// but the one that is running.
pub proof fn what_is_too_old_goes(
    retention: RetentionDays,
    now: Timestamp,
    session: i64,
    out: [Deletion; 3],
)
    requires
        call_ensures(prune, (retention, now, session), out),
        now.ms - retention@ * 86_400_000 >= i64::MIN,
        retention@ >= 1,
    ensures
        out@[0].table@ == "events"@ && out@[0].column@ == "ts_ms"@ && out@[0].spare_id is None,
        out@[1].table@ == "decisions"@ && out@[1].column@ == "ts_ms"@ && out@[1].spare_id is None,
        out@[2].table@ == "sessions"@ && out@[2].column@ == "started_ms"@,
        out@[2].spare_id == Some(session),
        forall|i: int|
            0 <= i < 3 ==> now.ms - (#[trigger] out@[i]).before_ms == retention@ * 24 * 60 * 60
                * 1000,
{
}

/// A decision is recorded as one, and a failsafe as such.
pub proof fn a_kind_is_called_by_its_name()
    ensures
        DecisionKind::Decision.spec_str() == "decision"@,
        DecisionKind::Failsafe.spec_str() == "failsafe"@,
{
}

} // verus!
