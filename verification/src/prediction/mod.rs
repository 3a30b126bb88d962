//! Solar production forecasts for a dashboard: when to fetch one, and what to
//! keep of it. Nothing here decides what a battery does.

use vstd::prelude::*;

use crate::calendar;
use crate::calendar::{
    date_of, date_text, day_number, local_time, midnight_of, utc_day, whole_days, Date, EPOCH_DAY,
};
use crate::config::PredictionConfig;
use crate::number;
use crate::number::{digits_value, int_of, is_digit, is_digits, unsigned_of};
use crate::prediction::series::{from_on, is_series, replaced, Series};
use crate::prediction::simulated::SimulatedForecaster;
use crate::prediction::solcast::SolcastForecaster;
use crate::text;
use crate::text::{digit, position, quoted};
use crate::units::{SolarForecastPoint, Timestamp};

pub mod series;
pub mod simulated;
pub mod solcast;

verus! {

// --- times of day --------------------------------------------------------------

/// A local time of day, to the minute.
#[derive(Debug, Clone, Copy, PartialEq, Eq, PartialOrd, Ord, Structural)]
pub struct TimeOfDay {
    hour: u32,
    minute: u32,
}

impl View for TimeOfDay {
    type V = int;

    /// In minutes since midnight.
    closed spec fn view(&self) -> int {
        self.hour * 60 + self.minute
    }
}

/// Why there is no such time of day, if there is none.
pub open spec fn time_problem(hour: int, minute: int) -> Option<Seq<char>> {
    if hour >= 24 {
        Some("hour must be 0-23, found "@ + text::decimal(hour as nat))
    } else if minute >= 60 {
        Some("minute must be 0-59, found "@ + text::decimal(minute as nat))
    } else {
        None
    }
}

/// A number below a hundred, in two digits.
pub open spec fn two_digits(n: int) -> Seq<char> {
    seq![digit(n / 10), digit(n % 10)]
}

/// A time of day as it is written.
pub open spec fn time_text(minutes: int) -> Seq<char> {
    two_digits(minutes / 60) + ":"@ + two_digits(minutes % 60)
}

/// What a text says of a time of day, in minutes since midnight.
pub open spec fn time_of(s: Seq<char>) -> Result<int, Seq<char>> {
    let malformed = Err("must be \"HH:MM\", found "@ + quoted(s));
    let at = position(s, ':', 0);
    if at >= s.len() {
        malformed
    } else {
        match (u32_of(s.take(at)), u32_of(s.skip(at + 1))) {
            (Some(hour), Some(minute)) => match time_problem(hour, minute) {
                Some(problem) => Err(problem),
                None => Ok(hour * 60 + minute),
            },
            _ => malformed,
        }
    }
}

/// A number that a `u32` holds.
pub open spec fn u32_of(s: Seq<char>) -> Option<int> {
    match unsigned_of(s) {
        Some(n) if n <= u32::MAX => Some(n),
        _ => None,
    }
}

pub open spec fn shown_time(out: Result<TimeOfDay, String>) -> Result<int, Seq<char>> {
    match out {
        Ok(time) => Ok(time@),
        Err(error) => Err(error@),
    }
}

impl TimeOfDay {
    #[verifier::type_invariant]
    spec fn within_a_day(self) -> bool {
        self.hour < 24 && self.minute < 60
    }

    pub fn new(hour: u32, minute: u32) -> (out: Result<Self, String>)
        ensures
            shown_time(out) == match time_problem(hour as int, minute as int) {
                Some(problem) => Err(problem),
                None => Ok(hour * 60 + minute),
            },
    {
        if hour >= 24 {
            let mut error = "hour must be 0-23, found ".to_owned();
            text::push_decimal(&mut error, hour as u128);
            return Err(error);
        }
        if minute >= 60 {
            let mut error = "minute must be 0-59, found ".to_owned();
            text::push_decimal(&mut error, minute as u128);
            return Err(error);
        }
        Ok(TimeOfDay { hour, minute })
    }

    /// In minutes since midnight.
    pub fn minutes(self) -> (out: u32)
        ensures
            out == self@,
            out < 1440,
    {
        proof {
            use_type_invariant(&self);
        }
        self.hour * 60 + self.minute
    }

    /// As hours and minutes, in two digits each.
    pub fn to_string(&self) -> (out: String)
        ensures
            out@ == time_text(self@),
    {
        proof {
            use_type_invariant(self);
        }
        assert(self@ / 60 == self.hour && self@ % 60 == self.minute);
        let mut out = String::new();
        push_two(&mut out, self.hour);
        let ghost hours = out@;
        assert(hours =~= two_digits(self@ / 60));
        out.append(":");
        push_two(&mut out, self.minute);
        out
    }

    /// The time of day that a text says.
    pub fn parse(s: &str) -> (out: Result<Self, String>)
        ensures
            shown_time(out) == time_of(s@),
    {
        let chars = text::chars_of(s);
        let at = text::find_char(&chars, ':', 0);
        if at < chars.len() {
            assert(s@.take(at as int) =~= s@.subrange(0, at as int));
            assert(s@.skip(at + 1) =~= s@.subrange(at + 1, s@.len() as int));
            let hour = number::parse_u32(text::piece(&chars, 0, at).as_str());
            let minute = number::parse_u32(text::piece(&chars, at + 1, chars.len()).as_str());
            if let (Some(hour), Some(minute)) = (hour, minute) {
                return TimeOfDay::new(hour, minute);
            }
        }
        let mut error = "must be \"HH:MM\", found ".to_owned();
        text::push_quoted(&mut error, s);
        Err(error)
    }
}

fn push_two(out: &mut String, n: u32)
    requires
        n < 100,
    ensures
        final(out)@ == old(out)@ + two_digits(n as int),
{
    let ghost before = out@;
    if n < 10 {
        out.append("0");
        proof {
            reveal_strlit("0");
        }
    }
    text::push_decimal(out, n as u128);
    proof {
        reveal_with_fuel(text::decimal, 3);
        assert(out@ =~= before + two_digits(n as int));
    }
}

/// Five times spread across daylight, where cloud cover changes a forecast.
pub fn default_poll_times() -> (out: [TimeOfDay; 5])
    ensures
        minutes_of(out@) == seq![360int, 570, 750, 930, 1110],
{
    let out = [
        TimeOfDay { hour: 6, minute: 0 },
        TimeOfDay { hour: 9, minute: 30 },
        TimeOfDay { hour: 12, minute: 30 },
        TimeOfDay { hour: 15, minute: 30 },
        TimeOfDay { hour: 18, minute: 30 },
    ];
    assert(minutes_of(out@) =~= seq![360int, 570, 750, 930, 1110]);
    out
}

pub open spec fn minutes_of(times: Seq<TimeOfDay>) -> Seq<int> {
    times.map_values(|t: TimeOfDay| t@)
}

/// A time of day is read back as it was written.
pub proof fn a_time_of_day_is_read_back(minutes: int)
    requires
        0 <= minutes < 1440,
    ensures
        time_of(time_text(minutes)) == Ok::<int, Seq<char>>(minutes),
{
    let h = two_digits(minutes / 60);
    let m = two_digits(minutes % 60);
    let s = time_text(minutes);
    reveal_strlit(":");
    two_digits_are_read(minutes / 60);
    two_digits_are_read(minutes % 60);
    assert(s[2] == ':');
    assert(s[0] == h[0] && s[1] == h[1]);
    text::position_found(s, ':', 0, 2);
    assert(s.take(2) =~= h);
    assert(s.skip(3) =~= m);
}

proof fn two_digits_are_read(n: int)
    requires
        0 <= n < 100,
    ensures
        u32_of(two_digits(n)) == Some(n),
        two_digits(n)[0] != ':' && two_digits(n)[1] != ':',
{
    let s = two_digits(n);
    assert(is_digit(s[0]) && is_digit(s[1]));
    assert(is_digits(s));
    reveal_with_fuel(digits_value, 3);
    assert(s.drop_last() =~= seq![digit(n / 10)]);
    assert(s.drop_last().drop_last() =~= Seq::<char>::empty());
    assert(digits_value(s) == n);
    assert(int_of(s) == Some(n));
}

// --- the local date and time ---------------------------------------------------

/// The local date and time of day, to the minute.
#[derive(Debug, Clone, Copy, PartialEq, Eq, Structural)]
pub struct LocalNow {
    pub date: Date,
    pub time: TimeOfDay,
}

impl LocalNow {
    /// What the clocks of a timezone show at `now`. Nothing where the timezone
    /// or the calendar does not reach it.
    pub fn at(now: Timestamp, timezone: &str) -> (out: Option<Self>)
        ensures
            match out {
                Some(shown) => {
                    &&& local_time(timezone@, now) matches Some(local)
                    &&& day_number(utc_day(local)) == Some(shown.date)
                    &&& shown.time@ == (local % 86_400_000) / 60_000
                },
                None => local_time(timezone@, now) matches Some(local) ==> day_number(
                    utc_day(local),
                ) is None,
            },
    {
        let local: i128 = match calendar::local(timezone, now) {
            Some(local) => local,
            None => return None,
        };
        let day: i128 = whole_days(local);
        let number: i128 = day + EPOCH_DAY as i128;
        if number < -0x8000_0000 || number > 0x7fff_ffff {
            return None;
        }
        let minutes: u32 = ((local - day * 86_400_000) / 60_000) as u32;
        Some(
            LocalNow {
                date: Date { day: number as i32 },
                time: TimeOfDay { hour: minutes / 60, minute: minutes % 60 },
            },
        )
    }
}

// --- backends ------------------------------------------------------------------

/// What can go wrong fetching a forecast. A response that cannot be read is the
/// one most worth keeping.
#[derive(Debug)]
pub enum ForecastError {
    Request(String),
    Parse { body: String, error: String },
}

impl ForecastError {
    pub open spec fn spec_text(self) -> Seq<char> {
        match self {
            ForecastError::Request(e) => "request failed: "@ + e@,
            ForecastError::Parse { error, .. } => "parse error: "@ + error@,
        }
    }

    pub fn to_string(&self) -> (out: String)
        ensures
            out@ == self.spec_text(),
    {
        match self {
            ForecastError::Request(e) => {
                let mut out = "request failed: ".to_owned();
                out.append(e.as_str());
                out
            },
            ForecastError::Parse { error, .. } => {
                let mut out = "parse error: ".to_owned();
                out.append(error.as_str());
                out
            },
        }
    }
}

/// Whichever backend was selected.
pub enum Forecaster {
    Solcast(SolcastForecaster),
    Simulated(SimulatedForecaster),
}

/// The backend that a configuration selects.
pub fn from_config(config: &PredictionConfig) -> (out: Forecaster)
    ensures
        match *config {
            PredictionConfig::Solcast { api_key, site_east, site_west, .. } => {
                &&& out matches Forecaster::Solcast(solcast)
                &&& solcast.api_key@ == api_key@
                &&& solcast.site_east@ == site_east@
                &&& solcast.site_west@ == site_west@
            },
            PredictionConfig::Simulated { .. } => out is Simulated,
        },
{
    match config {
        PredictionConfig::Solcast { api_key, site_east, site_west, .. } => Forecaster::Solcast(
            SolcastForecaster::new(api_key.clone(), site_east.clone(), site_west.clone()),
        ),
        PredictionConfig::Simulated { .. } => Forecaster::Simulated(SimulatedForecaster::new()),
    }
}

// --- the schedule --------------------------------------------------------------

/// Which times of day were used on a date.
pub struct Budget {
    pub date: Date,
    pub fired: Set<int>,
}

/// Whether a time of day has been used on a date.
pub open spec fn is_used(budget: Budget, date: Date, slot: int) -> bool {
    budget.date == date && budget.fired.contains(slot)
}

/// The last of the first `n` times of day that has passed and is not used yet.
pub open spec fn due(budget: Budget, poll_times: Seq<int>, date: Date, time: int, n: int) -> Option<
    int,
>
    decreases n,
{
    if n <= 0 {
        None
    } else if poll_times[n - 1] <= time && !is_used(budget, date, poll_times[n - 1]) {
        Some(poll_times[n - 1])
    } else {
        due(budget, poll_times, date, time, n - 1)
    }
}

/// The budget once a time of day is used, and every earlier one with it. A new
/// date starts over.
pub open spec fn used(budget: Budget, poll_times: Seq<int>, date: Date, slot: int) -> Budget {
    let fired = if budget.date == date {
        budget.fired
    } else {
        Set::empty()
    };
    Budget {
        date,
        fired: fired.union(Set::new(|t: int| poll_times.contains(t) && t <= slot)),
    }
}

/// What the state file holds.
#[derive(Debug)]
pub struct PersistedForecastState {
    pub date: String,
    pub fired: Vec<TimeOfDay>,
    pub points: Vec<SolarForecastPoint>,
    pub fetched_at: Option<i64>,
}

/// What a dashboard shows of a forecast.
#[derive(Debug)]
pub struct ForecastSnapshot {
    pub points: Vec<SolarForecastPoint>,
    pub as_of: Option<Timestamp>,
}

/// The daily budget of fetches, and the last forecast.
#[derive(Debug)]
pub struct ForecastTracker {
    date: Date,
    /// In the order of time, each once.
    fired: Vec<TimeOfDay>,
    poll_times: Vec<TimeOfDay>,
    /// In the order of time, one to a moment.
    points: Vec<SolarForecastPoint>,
    fetched_at: Option<Timestamp>,
    timezone: String,
}

/// Each once, in the order of time.
pub open spec fn is_rising(times: Seq<int>) -> bool {
    forall|i: int, j: int| 0 <= i < j < times.len() ==> #[trigger] times[i] < #[trigger] times[j]
}

/// The series of a list of points. Of two for one moment, the later counts.
pub open spec fn series_of(points: Seq<SolarForecastPoint>) -> Series {
    replaced(Map::empty(), points, points.len() as int)
}

/// What is kept once a fetch has come in: what it says, and what was known of
/// moments that it no longer mentions, from the start of the day on.
pub open spec fn refreshed(
    points: Seq<SolarForecastPoint>,
    fetched: Seq<SolarForecastPoint>,
    midnight: Timestamp,
) -> Series {
    from_on(replaced(series_of(points), fetched, fetched.len() as int), midnight.ms as int)
}

/// Notes one more time of day.
fn note(fired: &Vec<TimeOfDay>, time: TimeOfDay) -> (out: Vec<TimeOfDay>)
    requires
        is_rising(minutes_of(fired@)),
    ensures
        is_rising(minutes_of(out@)),
        minutes_of(out@).to_set() == minutes_of(fired@).to_set().insert(time@),
{
    let mut at: usize = 0;
    let ghost before = minutes_of(fired@);
    while at < fired.len() && fired[at].minutes() < time.minutes()
        invariant
            before == minutes_of(fired@),
            at <= fired.len(),
            forall|i: int| 0 <= i < at ==> #[trigger] before[i] < time@,
        decreases fired.len() - at,
    {
        assert(before[at as int] == fired@[at as int]@);
        at += 1;
    }
    let mut out: Vec<TimeOfDay> = Vec::new();
    for i in 0..at
        invariant
            at <= fired.len(),
            out@ == fired@.take(i as int),
    {
        out.push(fired[i]);
        assert(out@ =~= fired@.take(i + 1));
    }
    out.push(time);
    let first: usize = if at < fired.len() && fired[at].minutes() == time.minutes() {
        assert(before[at as int] == fired@[at as int]@);
        at + 1
    } else {
        at
    };
    let ghost front = out@;
    assert(front + fired@.subrange(first as int, first as int) =~= front);
    for i in first..fired.len()
        invariant
            first <= fired.len(),
            out@ == front + fired@.subrange(first as int, i as int),
    {
        out.push(fired[i]);
        assert(out@ =~= front + fired@.subrange(first as int, i + 1));
    }
    proof {
        if at < fired@.len() {
            assert(before[at as int] == fired@[at as int]@);
        }
        assert forall|i: int| first <= i < before.len() implies time@ < #[trigger] before[i] by {
            if i > at {
                assert(before[at as int] < before[i]);
            }
        }
        assert(minutes_of(out@) =~= before.take(at as int).push(time@) + before.skip(
            first as int,
        ));
        noted(before, time@, at as int, first as int);
    }
    out
}

/// A number put where it belongs, once.
proof fn noted(before: Seq<int>, new: int, at: int, first: int)
    requires
        is_rising(before),
        0 <= at <= first <= before.len(),
        forall|i: int| 0 <= i < at ==> #[trigger] before[i] < new,
        forall|i: int| at <= i < first ==> #[trigger] before[i] == new,
        forall|i: int| first <= i < before.len() ==> new < #[trigger] before[i],
    ensures
        ({
            let after = before.take(at).push(new) + before.skip(first);
            &&& is_rising(after)
            &&& after.to_set() == before.to_set().insert(new)
        }),
{
    let after = before.take(at).push(new) + before.skip(first);
    assert forall|i: int, j: int| 0 <= i < j < after.len() implies #[trigger] after[i]
        < #[trigger] after[j] by {
        if j < at {
            assert(before[i] < before[j]);
        } else if j > at {
            assert(after[j] == before[j - at - 1 + first]);
            if i < at {
                assert(before[i] < before[j - at - 1 + first]);
            } else if i > at {
                assert(after[i] == before[i - at - 1 + first]);
                assert(before[i - at - 1 + first] < before[j - at - 1 + first]);
            }
        }
    }
    assert forall|m: int| after.contains(m) implies before.to_set().insert(new).contains(m) by {
        let i = choose|i: int| 0 <= i < after.len() && after[i] == m;
        if i < at {
            assert(before[i] == m);
        } else if i > at {
            assert(before[i - at - 1 + first] == m);
        }
    }
    assert(after[at] == new);
    assert forall|m: int| before.contains(m) implies after.contains(m) by {
        let k = choose|k: int| 0 <= k < before.len() && before[k] == m;
        if k < at {
            assert(after[k] == m);
        } else if k >= first {
            assert(after[k - first + at + 1] == m);
        }
    }
    assert(after.to_set() =~= before.to_set().insert(new));
}

pub open spec fn shown_slot(slot: Option<TimeOfDay>) -> Option<int> {
    match slot {
        Some(slot) => Some(slot@),
        None => None,
    }
}

impl ForecastTracker {
    pub closed spec fn budget(self) -> Budget {
        Budget { date: self.date, fired: minutes_of(self.fired@).to_set() }
    }

    pub closed spec fn poll_times(self) -> Seq<int> {
        minutes_of(self.poll_times@)
    }

    pub closed spec fn points(self) -> Seq<SolarForecastPoint> {
        self.points@
    }

    pub closed spec fn fetched_at(self) -> Option<Timestamp> {
        self.fetched_at
    }

    pub closed spec fn timezone(self) -> Seq<char> {
        self.timezone@
    }

    #[verifier::type_invariant]
    spec fn well_formed(self) -> bool {
        is_rising(minutes_of(self.fired@))
    }

    /// A tracker that has used nothing and knows nothing.
    pub fn new(poll_times: Vec<TimeOfDay>, timezone: String) -> (out: Self)
        ensures
            out.budget() == (Budget { date: Date { day: 719_163 }, fired: Set::empty() }),
            out.poll_times() == minutes_of(poll_times@),
            out.points() == Seq::<SolarForecastPoint>::empty(),
            out.fetched_at() is None,
            out.timezone() == timezone@,
    {
        let out = ForecastTracker {
            date: Date { day: 719_163 },
            fired: Vec::new(),
            poll_times,
            points: Vec::new(),
            fetched_at: None,
            timezone,
        };
        assert(out.budget().fired =~= Set::empty());
        out
    }

    /// The latest time of day that has passed and was not used today, if any. A
    /// catch-up after a downtime is a single fetch, since the earlier ones are
    /// not offered.
    pub fn next_due(&self, now: &LocalNow) -> (out: Option<TimeOfDay>)
        ensures
            shown_slot(out) == due(
                self.budget(),
                self.poll_times(),
                now.date,
                now.time@,
                self.poll_times().len() as int,
            ),
    {
        let mut n: usize = self.poll_times.len();
        let ghost all = self.poll_times();
        while n > 0
            invariant
                n <= self.poll_times.len(),
                all == minutes_of(self.poll_times@),
                due(self.budget(), all, now.date, now.time@, all.len() as int) == due(
                    self.budget(),
                    all,
                    now.date,
                    now.time@,
                    n as int,
                ),
            decreases n,
        {
            let slot = self.poll_times[n - 1];
            assert(all[n - 1] == slot@);
            if slot.minutes() <= now.time.minutes() && !self.has_used(now, slot) {
                return Some(slot);
            }
            n -= 1;
        }
        None
    }

    fn has_used(&self, now: &LocalNow, slot: TimeOfDay) -> (out: bool)
        ensures
            out == is_used(self.budget(), now.date, slot@),
    {
        if self.date.day != now.date.day {
            return false;
        }
        let ghost all = minutes_of(self.fired@);
        for i in 0..self.fired.len()
            invariant
                all == minutes_of(self.fired@),
                self.date == now.date,
                forall|k: int| 0 <= k < i ==> #[trigger] all[k] != slot@,
        {
            assert(all[i as int] == self.fired@[i as int]@);
            if self.fired[i].minutes() == slot.minutes() {
                assert(all.contains(slot@));
                return true;
            }
        }
        assert(!all.contains(slot@));
        false
    }

    /// Notes that a time of day was used, and every earlier one with it. A
    /// fetch that failed has used it too.
    pub fn mark_used(&mut self, now: &LocalNow, slot: TimeOfDay)
        ensures
            final(self).budget() == used(
                old(self).budget(),
                old(self).poll_times(),
                now.date,
                slot@,
            ),
            final(self).poll_times() == old(self).poll_times(),
            final(self).points() == old(self).points(),
            final(self).fetched_at() == old(self).fetched_at(),
            final(self).timezone() == old(self).timezone(),
    {
        proof {
            use_type_invariant(&*self);
        }
        let mut fired: Vec<TimeOfDay> = Vec::new();
        if self.date.day == now.date.day {
            for i in 0..self.fired.len()
                invariant
                    fired@ == self.fired@.take(i as int),
            {
                fired.push(self.fired[i]);
                assert(fired@ =~= self.fired@.take(i + 1));
            }
            assert(fired@ =~= self.fired@);
        }
        let ghost all = minutes_of(self.poll_times@);
        let ghost start = minutes_of(fired@).to_set();
        proof {
            assert(start =~= if self.date == now.date {
                self.budget().fired
            } else {
                Set::empty()
            });
            assert(start.union(
                Set::new(|t: int| all.take(0).contains(t) && t <= slot@),
            ) =~= start);
        }
        for i in 0..self.poll_times.len()
            invariant
                all == minutes_of(self.poll_times@),
                is_rising(minutes_of(fired@)),
                minutes_of(fired@).to_set() == start.union(
                    Set::new(|t: int| all.take(i as int).contains(t) && t <= slot@),
                ),
        {
            let anchor = self.poll_times[i];
            proof {
                assert(all[i as int] == anchor@);
                taken(all, i as int);
            }
            let ghost before = minutes_of(fired@).to_set();
            if anchor.minutes() <= slot.minutes() {
                fired = note(&fired, anchor);
                assert(before.insert(anchor@) =~= start.union(
                    Set::new(|t: int| all.take(i + 1).contains(t) && t <= slot@),
                ));
            } else {
                assert(before =~= start.union(
                    Set::new(|t: int| all.take(i + 1).contains(t) && t <= slot@),
                ));
            }
        }
        assert(all.take(all.len() as int) =~= all);
        self.fired = fired;
        self.date = now.date;
        assert(self.budget().fired =~= used(
            old(self).budget(),
            old(self).poll_times(),
            now.date,
            slot@,
        ).fired);
    }

    /// Takes in a fetch. What it says replaces what was known of the same
    /// moments. Moments that it no longer mentions are kept, and what lies before
    /// the day is dropped.
    pub fn set_forecast(&mut self, points: Vec<SolarForecastPoint>, at: Timestamp)
        ensures
            is_series(
                final(self).points(),
                refreshed(old(self).points(), points@, midnight_of(old(self).timezone(), at)),
            ),
            final(self).fetched_at() == Some(at),
            final(self).budget() == old(self).budget(),
            final(self).poll_times() == old(self).poll_times(),
            final(self).timezone() == old(self).timezone(),
    {
        proof {
            use_type_invariant(&*self);
        }
        let mut list: Vec<SolarForecastPoint> = Vec::new();
        for i in 0..self.points.len()
            invariant
                is_series(list@, replaced(Map::empty(), self.points@, i as int)),
        {
            series::put_point(
                &mut list,
                self.points[i],
                Ghost(replaced(Map::empty(), self.points@, i as int)),
            );
        }
        let ghost known = series_of(self.points@);
        for i in 0..points.len()
            invariant
                is_series(list@, replaced(known, points@, i as int)),
        {
            series::put_point(&mut list, points[i], Ghost(replaced(known, points@, i as int)));
        }
        let midnight = calendar::local_midnight(at, self.timezone.as_str());
        let kept = series::keep_from(
            &list,
            midnight,
            Ghost(replaced(known, points@, points@.len() as int)),
        );
        self.points = kept;
        self.fetched_at = Some(at);
    }

    /// Takes in how a fetch for a time of day came out. Either way it has used
    /// its slot. Gives back whether there is anything new to show.
    pub fn fetched(
        &mut self,
        now: &LocalNow,
        slot: TimeOfDay,
        result: Result<Vec<SolarForecastPoint>, ForecastError>,
        at: Timestamp,
    ) -> (out: bool)
        ensures
            out == result is Ok,
            final(self).budget() == used(
                old(self).budget(),
                old(self).poll_times(),
                now.date,
                slot@,
            ),
            final(self).poll_times() == old(self).poll_times(),
            final(self).timezone() == old(self).timezone(),
            match result {
                Ok(points) => {
                    &&& is_series(
                        final(self).points(),
                        refreshed(
                            old(self).points(),
                            points@,
                            midnight_of(old(self).timezone(), at),
                        ),
                    )
                    &&& final(self).fetched_at() == Some(at)
                },
                Err(_) => {
                    &&& final(self).points() == old(self).points()
                    &&& final(self).fetched_at() == old(self).fetched_at()
                },
            },
    {
        let fresh = match result {
            Ok(points) => {
                self.set_forecast(points, at);
                true
            },
            Err(_) => false,
        };
        self.mark_used(now, slot);
        fresh
    }

    /// What a dashboard shows.
    pub fn snapshot(&self) -> (out: ForecastSnapshot)
        ensures
            out.points@ == self.points(),
            out.as_of == self.fetched_at(),
    {
        ForecastSnapshot { points: copied(&self.points), as_of: self.fetched_at }
    }

    /// What the state file is to hold.
    pub fn saved(&self) -> (out: PersistedForecastState)
        ensures
            is_saved(*self, out),
    {
        proof {
            use_type_invariant(self);
        }
        let mut fired: Vec<TimeOfDay> = Vec::new();
        for i in 0..self.fired.len()
            invariant
                fired@ == self.fired@.take(i as int),
        {
            fired.push(self.fired[i]);
            assert(fired@ =~= self.fired@.take(i + 1));
        }
        assert(fired@ =~= self.fired@);
        let fetched_at = match self.fetched_at {
            Some(at) => Some(at.as_millis()),
            None => None,
        };
        PersistedForecastState {
            date: self.date.to_string(),
            fired,
            points: copied(&self.points),
            fetched_at,
        }
    }

    /// A tracker that goes on from a state file. One whose date cannot be read
    /// is left aside.
    pub fn restored(
        state: &PersistedForecastState,
        poll_times: Vec<TimeOfDay>,
        timezone: String,
    ) -> (out: Self)
        ensures
            out.poll_times() == minutes_of(poll_times@),
            out.timezone() == timezone@,
            match date_of(state.date@) {
                Some(day) => {
                    &&& out.budget() == (Budget {
                        date: Date { day },
                        fired: minutes_of(state.fired@).to_set(),
                    })
                    &&& out.points() == state.points@
                    &&& out.fetched_at() == match state.fetched_at {
                        Some(ms) => Some(Timestamp { ms }),
                        None => None,
                    }
                },
                None => {
                    &&& out.budget() == (Budget { date: Date { day: 719_163 }, fired: Set::empty() })
                    &&& out.points() == Seq::<SolarForecastPoint>::empty()
                    &&& out.fetched_at() is None
                },
            },
    {
        let date = match Date::parse(state.date.as_str()) {
            Some(date) => date,
            None => return ForecastTracker::new(poll_times, timezone),
        };
        let mut fired: Vec<TimeOfDay> = Vec::new();
        let ghost all = minutes_of(state.fired@);
        assert(minutes_of(fired@).to_set() =~= all.take(0).to_set());
        for i in 0..state.fired.len()
            invariant
                all == minutes_of(state.fired@),
                is_rising(minutes_of(fired@)),
                minutes_of(fired@).to_set() == all.take(i as int).to_set(),
        {
            let ghost before = minutes_of(fired@).to_set();
            fired = note(&fired, state.fired[i]);
            proof {
                assert(all[i as int] == state.fired@[i as int]@);
                taken(all, i as int);
                assert(before.insert(all[i as int]) =~= all.take(i + 1).to_set());
            }
        }
        assert(all.take(all.len() as int) =~= all);
        let fetched_at = match state.fetched_at {
            Some(ms) => Some(Timestamp::from_millis(ms)),
            None => None,
        };
        ForecastTracker {
            date,
            fired,
            poll_times,
            points: copied(&state.points),
            fetched_at,
            timezone,
        }
    }
}

proof fn taken(all: Seq<int>, i: int)
    requires
        0 <= i < all.len(),
    ensures
        forall|t: int| #[trigger]
            all.take(i + 1).contains(t) <==> all.take(i).contains(t) || t == all[i],
{
    let longer = all.take(i + 1);
    assert(longer =~= all.take(i).push(all[i]));
    assert forall|t: int| #[trigger] all.take(i + 1).contains(t) <==> all.take(i).contains(t) || t
        == all[i] by {
        if all.take(i).contains(t) {
            let k = choose|k: int| 0 <= k < i && all.take(i)[k] == t;
            assert(all.take(i + 1)[k] == t);
        }
        if t == all[i] {
            assert(all.take(i + 1)[i] == t);
        }
        if all.take(i + 1).contains(t) && t != all[i] {
            let k = choose|k: int| 0 <= k < longer.len() && longer[k] == t;
            assert(all.take(i)[k] == t);
        }
    }
}

fn copied(points: &Vec<SolarForecastPoint>) -> (out: Vec<SolarForecastPoint>)
    ensures
        out@ == points@,
{
    let mut out: Vec<SolarForecastPoint> = Vec::new();
    for i in 0..points.len()
        invariant
            out@ == points@.take(i as int),
    {
        out.push(points[i]);
        assert(out@ =~= points@.take(i + 1));
    }
    assert(out@ =~= points@);
    out
}

/// What the state file holds of a tracker. A date of four-digit years can be
/// read back.
pub open spec fn is_saved(tracker: ForecastTracker, state: PersistedForecastState) -> bool {
    let date = tracker.budget().date;
    &&& state.date@ == date.spec_text()
    &&& 1 <= date.day <= 3_652_059 && date_text(date.day) is Some ==> date_of(state.date@) == Some(
        date.day,
    )
    &&& minutes_of(state.fired@).to_set() == tracker.budget().fired
    &&& is_rising(minutes_of(state.fired@))
    &&& state.points@ == tracker.points()
    &&& state.fetched_at == match tracker.fetched_at() {
        Some(at) => Some(at.ms),
        None => None,
    }
}

// --- laws ----------------------------------------------------------------------

/// Nothing is due before the first time of day, and what is due has passed and
/// was not used.
pub proof fn what_is_due_has_passed_and_is_unused(
    budget: Budget,
    poll_times: Seq<int>,
    date: Date,
    time: int,
    n: int,
)
    requires
        0 <= n <= poll_times.len(),
    ensures
        match due(budget, poll_times, date, time, n) {
            Some(slot) => {
                &&& poll_times.contains(slot)
                &&& slot <= time
                &&& !is_used(budget, date, slot)
            },
            None => forall|i: int|
                0 <= i < n ==> (#[trigger] poll_times[i]) > time || is_used(
                    budget,
                    date,
                    poll_times[i],
                ),
        },
    decreases n,
{
    if n > 0 && !(poll_times[n - 1] <= time && !is_used(budget, date, poll_times[n - 1])) {
        what_is_due_has_passed_and_is_unused(budget, poll_times, date, time, n - 1);
    }
}

/// A catch-up collapses into one fetch: once the time of day that was due is
/// used, nothing is due any more at that moment, however many had been missed.
pub proof fn a_catch_up_is_a_single_fetch(
    budget: Budget,
    poll_times: Seq<int>,
    date: Date,
    time: int,
    slot: int,
    n: int,
)
    requires
        forall|i: int, j: int|
            0 <= i <= j < poll_times.len() ==> #[trigger] poll_times[i] <= #[trigger] poll_times[j],
        due(budget, poll_times, date, time, poll_times.len() as int) == Some(slot),
        0 <= n <= poll_times.len(),
    ensures
        due(used(budget, poll_times, date, slot), poll_times, date, time, n) is None,
    decreases n,
{
    if n > 0 {
        a_catch_up_is_a_single_fetch(budget, poll_times, date, time, slot, n - 1);
        let t = poll_times[n - 1];
        assert(poll_times.contains(t));
        if t <= time && t > slot {
            later_ones_are_used(budget, poll_times, date, time, slot, poll_times.len() as int, n - 1);
        }
    }
}

proof fn later_ones_are_used(
    budget: Budget,
    poll_times: Seq<int>,
    date: Date,
    time: int,
    slot: int,
    n: int,
    k: int,
)
    requires
        forall|i: int, j: int|
            0 <= i <= j < poll_times.len() ==> #[trigger] poll_times[i] <= #[trigger] poll_times[j],
        due(budget, poll_times, date, time, n) == Some(slot),
        0 <= k < n <= poll_times.len(),
        slot < poll_times[k] <= time,
    ensures
        is_used(budget, date, poll_times[k]),
    decreases n,
{
    let last = poll_times[n - 1];
    if last <= time && !is_used(budget, date, last) {
        assert(poll_times[k] <= poll_times[n - 1]);
    } else if k < n - 1 {
        later_ones_are_used(budget, poll_times, date, time, slot, n - 1, k);
    }
}

/// A new day has the whole budget again, whatever was used before it.
pub proof fn a_new_day_starts_over(
    budget: Budget,
    poll_times: Seq<int>,
    date: Date,
    time: int,
    n: int,
)
    requires
        budget.date != date,
        0 <= n <= poll_times.len(),
    ensures
        due(budget, poll_times, date, time, n) == due(
            Budget { date, fired: Set::empty() },
            poll_times,
            date,
            time,
            n,
        ),
    decreases n,
{
    if n > 0 {
        a_new_day_starts_over(budget, poll_times, date, time, n - 1);
    }
}

/// A restart keeps the budget and the forecast: what is saved comes back, for
/// every date that the calendar writes in four-digit years.
pub proof fn a_restart_keeps_the_budget(
    tracker: ForecastTracker,
    state: PersistedForecastState,
    restored: ForecastTracker,
)
    requires
        is_saved(tracker, state),
        1 <= tracker.budget().date.day <= 3_652_059,
        date_text(tracker.budget().date.day) is Some,
        date_of(state.date@) matches Some(day) ==> restored.budget() == (Budget {
            date: Date { day },
            fired: minutes_of(state.fired@).to_set(),
        }),
        date_of(state.date@) is Some ==> restored.points() == state.points@,
    ensures
        restored.budget() == tracker.budget(),
        restored.points() == tracker.points(),
{
}

/// A fetch keeps what is known of moments that it does not mention, as long as
/// they lie within the day.
pub proof fn a_fetch_keeps_what_it_does_not_mention(
    series: Series,
    fetched: Seq<SolarForecastPoint>,
    n: int,
    at: int,
    midnight: Timestamp,
)
    requires
        0 <= n <= fetched.len(),
        forall|i: int| 0 <= i < n ==> (#[trigger] fetched[i]).at.ms != at,
        series.contains_key(at),
        at >= midnight.ms,
    ensures
        from_on(replaced(series, fetched, n), midnight.ms as int).contains_key(at),
        from_on(replaced(series, fetched, n), midnight.ms as int)[at] == series[at],
    decreases n,
{
    if n > 0 {
        a_fetch_keeps_what_it_does_not_mention(series, fetched, n - 1, at, midnight);
        assert(fetched[n - 1].at.ms != at);
    }
}

/// A fetch has the last word on what it mentions, and nothing stays of what lies
/// before the day.
pub proof fn a_fetch_has_the_last_word(
    series: Series,
    fetched: Seq<SolarForecastPoint>,
    midnight: Timestamp,
)
    requires
        fetched.len() > 0,
    ensures
        ({
            let last = fetched.last();
            let after = from_on(
                replaced(series, fetched, fetched.len() as int),
                midnight.ms as int,
            );
            &&& last.at.ms >= midnight.ms ==> after.contains_key(last.at.ms as int)
                && after[last.at.ms as int] == last.estimate.mw
            &&& forall|k: int| #[trigger] after.contains_key(k) ==> k >= midnight.ms
        }),
{
}

/// What is used of a day's budget is what was fetched for, and every earlier time with
/// it, on that very date.
pub proof fn a_fetch_uses_its_slot_and_the_earlier_ones(
    budget: Budget,
    poll_times: Seq<int>,
    date: Date,
    slot: int,
    other: int,
)
    ensures
        ({
            let after = used(budget, poll_times, date, slot);
            &&& after.date == date
            &&& poll_times.contains(other) && other <= slot ==> after.fired.contains(other)
            &&& budget.date == date && budget.fired.contains(other) ==> after.fired.contains(other)
            &&& after.fired.contains(other) ==> (poll_times.contains(other) && other <= slot) || (
            budget.date == date && budget.fired.contains(other))
        }),
{
}

/// A time of day is due exactly if it has come, was not fetched for on that date, and
/// no later one is in the same case.
pub proof fn the_latest_open_slot_is_due(
    budget: Budget,
    poll_times: Seq<int>,
    date: Date,
    time: int,
    i: int,
    n: int,
)
    requires
        0 <= i < n <= poll_times.len(),
        poll_times[i] <= time,
        budget.date != date || !budget.fired.contains(poll_times[i]),
        forall|j: int|
            i < j < n ==> (#[trigger] poll_times[j]) > time || (budget.date == date
                && budget.fired.contains(poll_times[j])),
    ensures
        due(budget, poll_times, date, time, n) == Some(poll_times[i]),
    decreases n,
{
    if i < n - 1 {
        assert(poll_times[n - 1] > time || (budget.date == date && budget.fired.contains(
            poll_times[n - 1],
        )));
        the_latest_open_slot_is_due(budget, poll_times, date, time, i, n - 1);
    }
}

/// After a fetch, the forecast says of a moment what the fetch says of it, or else
/// what was known, and nothing of what lies before the day.
pub proof fn a_fetch_refreshes_the_forecast(
    points: Seq<SolarForecastPoint>,
    fetched: Seq<SolarForecastPoint>,
    midnight: Timestamp,
    at: int,
    i: int,
)
    ensures
        ({
            let after = refreshed(points, fetched, midnight);
            &&& after.contains_key(at) ==> at >= midnight.ms
            &&& 0 <= i < fetched.len() && fetched[i].at.ms == at && at >= midnight.ms && (forall|
                j: int,
            |
                i < j < fetched.len() ==> (#[trigger] fetched[j]).at.ms != at) ==> after.contains_key(
                at,
            ) && after[at] == fetched[i].estimate.mw
            &&& (forall|j: int| 0 <= j < fetched.len() ==> (#[trigger] fetched[j]).at.ms != at)
                && at >= midnight.ms ==> (after.contains_key(at) <==> series_of(
                points,
            ).contains_key(at)) && (after.contains_key(at) ==> after[at] == series_of(points)[at])
        }),
{
    let series = series_of(points);
    let n = fetched.len() as int;
    if forall|j: int| 0 <= j < fetched.len() ==> (#[trigger] fetched[j]).at.ms != at {
        unmentioned_stays(series, fetched, n, at);
    }
    if 0 <= i < fetched.len() && fetched[i].at.ms == at && (forall|j: int|
        i < j < fetched.len() ==> (#[trigger] fetched[j]).at.ms != at) {
        the_last_mention_counts(series, fetched, n, at, i);
    }
}

proof fn unmentioned_stays(series: Series, fetched: Seq<SolarForecastPoint>, n: int, at: int)
    requires
        0 <= n <= fetched.len(),
        forall|j: int| 0 <= j < n ==> (#[trigger] fetched[j]).at.ms != at,
    ensures
        replaced(series, fetched, n).contains_key(at) <==> series.contains_key(at),
        series.contains_key(at) ==> replaced(series, fetched, n)[at] == series[at],
    decreases n,
{
    if n > 0 {
        assert(fetched[n - 1].at.ms != at);
        unmentioned_stays(series, fetched, n - 1, at);
    }
}

proof fn the_last_mention_counts(
    series: Series,
    fetched: Seq<SolarForecastPoint>,
    n: int,
    at: int,
    i: int,
)
    requires
        0 <= i < n <= fetched.len(),
        fetched[i].at.ms == at,
        forall|j: int| i < j < n ==> (#[trigger] fetched[j]).at.ms != at,
    ensures
        replaced(series, fetched, n).contains_key(at),
        replaced(series, fetched, n)[at] == fetched[i].estimate.mw,
    decreases n,
{
    if i < n - 1 {
        assert(fetched[n - 1].at.ms != at);
        the_last_mention_counts(series, fetched, n - 1, at, i);
    }
}

/// An hour beyond the day and a minute beyond the hour are no time of day.
pub proof fn a_day_has_its_hours_and_minutes(hour: int, minute: int)
    requires
        hour >= 0,
        minute >= 0,
    ensures
        time_problem(hour, minute) is None <==> hour <= 23 && minute <= 59,
{
}

/// What is saved of a forecast is the date and the slots that were used on it, the
/// points, and when they were fetched.
pub proof fn a_forecast_is_saved_as_it_is(
    tracker: ForecastTracker,
    state: PersistedForecastState,
    slot: int,
)
    requires
        is_saved(tracker, state),
    ensures
        state.date@ == tracker.budget().date.spec_text(),
        minutes_of(state.fired@).contains(slot) <==> tracker.budget().fired.contains(slot),
        state.points@ == tracker.points(),
        tracker.fetched_at() matches Some(at) ==> state.fetched_at == Some(at.ms),
        tracker.fetched_at() is None ==> state.fetched_at is None,
{
    if minutes_of(state.fired@).contains(slot) {
        assert(minutes_of(state.fired@).to_set().contains(slot));
    }
    if tracker.budget().fired.contains(slot) {
        assert(minutes_of(state.fired@).to_set().contains(slot));
    }
}

/// Why a fetch failed is said by where it failed.
pub proof fn a_failed_fetch_says_where(error: ForecastError)
    ensures
        error matches ForecastError::Request(e) ==> error.spec_text() == "request failed: "@ + e@,
        error matches ForecastError::Parse { body, error: e } ==> error.spec_text()
            == "parse error: "@ + e@,
{
}

/// A configuration selects the backend that it names, with its own key and its own
/// sites.
pub proof fn a_configuration_selects_its_backend(config: PredictionConfig, out: Forecaster)
    requires
        call_ensures(from_config, (&config,), out),
    ensures
        config is Simulated <==> out is Simulated,
        config matches PredictionConfig::Solcast { api_key, site_east, site_west, .. } ==> (
        out matches Forecaster::Solcast(solcast) && solcast.api_key@ == api_key@
            && solcast.site_east@ == site_east@ && solcast.site_west@ == site_west@),
{
}

} // verus!
