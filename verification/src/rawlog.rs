//! A capture of everything that enters and leaves the controller, one JSON
//! document to a line and one file to a day.
//!
//! Payloads are stored as they were received, so that a field nothing here knows
//! about is still on record. Every failure stops the logging, and never the
//! controlling.

use vstd::prelude::*;

use crate::calendar::{date_of, date_text, day_number, utc_day, Date};
use crate::json;
use crate::json::stored;
use crate::text;
use crate::text::signed;
use crate::units::Timestamp;

verus! {

/// What the log keeps: the day whose file is open, and how many days of files
/// are kept.
#[derive(Debug, Clone, Copy, PartialEq, Eq, Structural)]
pub struct RawLog {
    pub current: Option<Date>,
    pub retention_days: i64,
}

/// What to do for one line.
#[derive(Debug)]
pub struct Entry {
    pub line: String,
    /// The file that the line goes to.
    pub file: String,
    /// Whether that file has yet to be opened.
    pub rolled: bool,
}

/// A line of the log.
pub open spec fn line_of(ts_ms: int, kind: Seq<char>, payload: Seq<char>) -> Seq<char> {
    "{\"ts_ms\":"@ + signed(ts_ms) + ",\"kind\":\""@ + kind + "\",\"payload\":"@ + payload
        + "}\n"@
}

/// The file of a day.
pub open spec fn file_of(date: Date) -> Seq<char> {
    date.spec_text() + ".ndjson"@
}

/// A line of the log.
pub fn line(now: Timestamp, kind: &str, payload_json: &str) -> (out: String)
    ensures
        out@ == line_of(now.ms as int, kind@, payload_json@),
{
    let mut out = "{\"ts_ms\":".to_owned();
    text::push_signed(&mut out, now.as_millis() as i128);
    out.append(",\"kind\":\"");
    out.append(kind);
    out.append("\",\"payload\":");
    out.append(payload_json);
    out.append("}\n");
    out
}

impl RawLog {
    pub fn new(retention_days: i64) -> (out: Self)
        ensures
            out == (RawLog { current: None, retention_days }),
    {
        RawLog { current: None, retention_days }
    }

    /// The line of a payload that is already JSON, embedded as it is, or of one
    /// that is not, as a JSON string.
    pub fn raw(&self, kind: &str, payload: &str, now: Timestamp) -> (out: Option<Entry>)
        ensures
            is_entry(*self, out, now, line_of(now.ms as int, kind@, stored(payload@))),
    {
        let payload_json = json::stored_payload(payload);
        self.write_line(kind, payload_json.as_str(), now)
    }

    /// The line of a payload that is JSON, and the file that it goes to. Nothing
    /// for an instant that no calendar reaches.
    pub fn write_line(&self, kind: &str, payload_json: &str, now: Timestamp) -> (out: Option<
        Entry,
    >)
        ensures
            is_entry(*self, out, now, line_of(now.ms as int, kind@, payload_json@)),
    {
        match Date::of_utc(now) {
            Some(today) => {
                let rolled = match self.current {
                    Some(open) => open.day != today.day,
                    None => true,
                };
                let mut file = today.to_string();
                file.append(".ndjson");
                Some(Entry { line: line(now, kind, payload_json), file, rolled })
            },
            None => None,
        }
    }

    /// Notes whether the file of the day is open now. One that could not be
    /// opened or written is opened again for the next line.
    pub fn wrote(&mut self, now: Timestamp, landed: bool)
        ensures
            final(self).retention_days == old(self).retention_days,
            final(self).current == if landed {
                day_number(utc_day(now.ms as int))
            } else {
                None
            },
    {
        self.current = if landed {
            Date::of_utc(now)
        } else {
            None
        };
    }

    /// Which of a directory's files are to go: captures of a day beyond the
    /// retention window. What is no capture is left alone.
    pub fn prune(&self, names: &Vec<String>, now: Timestamp) -> (out: Vec<String>)
        ensures
            text::views(out@) == expired(
                text::views(names@),
                now,
                self.retention_days as int,
                names@.len() as int,
            ),
    {
        let mut out: Vec<String> = Vec::new();
        assert(text::views(out@) =~= Seq::<Seq<char>>::empty());
        for i in 0..names.len()
            invariant
                text::views(out@) == expired(
                    text::views(names@),
                    now,
                    self.retention_days as int,
                    i as int,
                ),
        {
            assert(text::views(names@)[i as int] == names@[i as int]@);
            if self.is_old(names[i].as_str(), now) {
                let ghost so_far = out@;
                let name = names[i].clone();
                out.push(name);
                assert(text::views(out@) =~= text::views(so_far).push(name@));
            }
        }
        out
    }

    fn is_old(&self, name: &str, now: Timestamp) -> (out: bool)
        ensures
            out == is_expired(name@, now, self.retention_days as int),
    {
        let chars = text::chars_of(name);
        let suffix = text::chars_of(".ndjson");
        proof {
            reveal_strlit(".ndjson");
        }
        if chars.len() <= suffix.len() {
            return false;
        }
        let at: usize = chars.len() - suffix.len();
        for i in 0..suffix.len()
            invariant
                suffix@ == ".ndjson"@,
                chars@ == name@,
                at == chars.len() - suffix.len(),
                suffix.len() < chars.len(),
                forall|k: int| 0 <= k < i ==> chars@[at + k] == #[trigger] suffix@[k],
        {
            if chars[at + i] != suffix[i] {
                assert(name@.skip(at as int)[i as int] != ".ndjson"@[i as int]);
                return false;
            }
        }
        assert(name@.skip(at as int) =~= ".ndjson"@);
        assert(name@.take(at as int) =~= name@.subrange(0, at as int));
        let stem = text::piece(&chars, 0, at);
        match (Date::parse(stem.as_str()), Date::of_utc(now)) {
            (Some(date), Some(today)) => (date.day as i128) < today.day as i128
                - self.retention_days as i128,
            _ => false,
        }
    }
}

/// What is to be done for a line.
pub open spec fn is_entry(log: RawLog, out: Option<Entry>, now: Timestamp, line: Seq<char>) -> bool {
    match day_number(utc_day(now.ms as int)) {
        Some(today) => {
            &&& out matches Some(entry)
            &&& entry.line@ == line
            &&& entry.file@ == file_of(today)
            &&& entry.rolled == (log.current != Some(today))
        },
        None => out is None,
    }
}

/// A capture of a day more than `retention` days ago.
pub open spec fn is_expired(name: Seq<char>, now: Timestamp, retention: int) -> bool {
    let at = name.len() - 7;
    &&& at > 0
    &&& name.skip(at) == ".ndjson"@
    &&& date_of(name.take(at)) matches Some(day)
    &&& day_number(utc_day(now.ms as int)) matches Some(today)
    &&& day < today.day - retention
}

/// Those of the first `n` names that are to go.
pub open spec fn expired(names: Seq<Seq<char>>, now: Timestamp, retention: int, n: int) -> Seq<
    Seq<char>,
>
    decreases n,
{
    if n <= 0 {
        Seq::empty()
    } else {
        let front = expired(names, now, retention, n - 1);
        if is_expired(names[n - 1], now, retention) {
            front.push(names[n - 1])
        } else {
            front
        }
    }
}

// --- laws ----------------------------------------------------------------------

/// Where what is stored does not break a line, and what is stored of a payload
/// that is no JSON never does, a line ends at its end and nowhere before.
pub proof fn a_line_ends_only_at_its_end(
    ts_ms: int,
    kind: Seq<char>,
    payload: Seq<char>,
    i: int,
)
    requires
        json::is_on_one_line(kind),
        json::is_on_one_line(payload),
    ensures
        ({
            let line = line_of(ts_ms, kind, payload);
            0 <= i < line.len() ==> (line[i] == '\n' <==> i == line.len() - 1)
        }),
{
    text::signed_is_clean(ts_ms);
    reveal_strlit("{\"ts_ms\":");
    reveal_strlit(",\"kind\":\"");
    reveal_strlit("\",\"payload\":");
    reveal_strlit("}\n");
    let line = line_of(ts_ms, kind, payload);
    let a = "{\"ts_ms\":"@ + signed(ts_ms);
    let b = a + ",\"kind\":\""@ + kind;
    let c = b + "\",\"payload\":"@ + payload;
    assert(line == c + "}\n"@);
    assert forall|k: int| 0 <= k < a.len() implies a[k] != '\n' by {
        if k >= "{\"ts_ms\":"@.len() {
            assert(a[k] == signed(ts_ms)[k - "{\"ts_ms\":"@.len()]);
        }
    }
    assert forall|k: int| 0 <= k < b.len() implies b[k] != '\n' by {
        let m = a.len() + ",\"kind\":\""@.len();
        if k < a.len() {
            assert(b[k] == a[k]);
        } else if k >= m {
            assert(b[k] == kind[k - m]);
        }
    }
    assert forall|k: int| 0 <= k < c.len() implies c[k] != '\n' by {
        let m = b.len() + "\",\"payload\":"@.len();
        if k < b.len() {
            assert(c[k] == b[k]);
        } else if k >= m {
            assert(c[k] == payload[k - m]);
        }
    }
    if 0 <= i < c.len() {
        assert(line[i] == c[i]);
    }
}

/// A capture within the retention window is never removed, today's least of all.
pub proof fn a_capture_within_the_window_stays(date: Date, now: Timestamp, retention: int)
    requires
        date_text(date.day) matches Some(text) && date_of(text) == Some(date.day),
        day_number(utc_day(now.ms as int)) matches Some(today) && date.day >= today.day - retention,
    ensures
        !is_expired(file_of(date), now, retention),
{
    reveal_strlit(".ndjson");
    let name = file_of(date);
    let at = name.len() - 7;
    assert(name.take(at) =~= date.spec_text());
}

/// A line is a JSON object with the moment in milliseconds, the kind, and the payload
/// as it is stored.
pub proof fn a_line_names_its_moment_and_kind(ts_ms: int, kind: Seq<char>, payload: Seq<char>)
    ensures
        line_of(ts_ms, kind, payload) == "{\"ts_ms\":"@ + signed(ts_ms) + ",\"kind\":\""@ + kind
            + "\",\"payload\":"@ + payload + "}\n"@,
{
}

/// A capture is removed exactly if its day lies further back than the window; what is
/// no capture never is.
pub proof fn a_capture_beyond_the_window_goes(
    name: Seq<char>,
    stem: Seq<char>,
    day: int,
    today: int,
    now: Timestamp,
    retention: int,
)
    requires
        name == stem + ".ndjson"@,
        stem.len() > 0,
        date_of(stem) matches Some(d) && d == day,
        day_number(utc_day(now.ms as int)) matches Some(t) && t.day == today,
    ensures
        is_expired(name, now, retention) <==> today - day > retention,
{
    reveal_strlit(".ndjson");
    let at = name.len() - 7;
    assert(name.skip(at) =~= ".ndjson"@);
    assert(name.take(at) =~= stem);
}

/// A file whose name does not end as a capture's does, or says no date, stays.
pub proof fn only_captures_go(name: Seq<char>, now: Timestamp, retention: int)
    ensures
        is_expired(name, now, retention) ==> name.len() > 7 && name.skip(name.len() - 7)
            == ".ndjson"@ && date_of(name.take(name.len() - 7)) is Some,
{
}

/// Of a list of names, exactly the expired ones go, in their order.
pub proof fn exactly_the_expired_go(
    names: Seq<Seq<char>>,
    now: Timestamp,
    retention: int,
    n: int,
)
    requires
        0 < n <= names.len(),
    ensures
        is_expired(names[n - 1], now, retention) ==> expired(names, now, retention, n) == expired(
            names,
            now,
            retention,
            n - 1,
        ).push(names[n - 1]),
        !is_expired(names[n - 1], now, retention) ==> expired(names, now, retention, n) == expired(
            names,
            now,
            retention,
            n - 1,
        ),
        expired(names, now, retention, 0).len() == 0,
{
}

/// A line goes to the file of the day that it was written on, which is opened anew
/// exactly if it is not the one that is open.
pub proof fn a_line_goes_to_the_file_of_its_day(
    log: RawLog,
    out: Option<Entry>,
    now: Timestamp,
    line: Seq<char>,
)
    requires
        is_entry(log, out, now, line),
    ensures
        out is Some <==> day_number(utc_day(now.ms as int)) is Some,
        out matches Some(entry) ==> {
            let today = day_number(utc_day(now.ms as int))->0;
            &&& entry.line@ == line
            &&& entry.file@ == today.spec_text() + ".ndjson"@
            &&& entry.rolled <==> log.current is None || log.current->0.day != today.day
        },
{
}

} // verus!
