//! Calendar dates, and local time.

use chrono::{Datelike, Offset, TimeZone};
use vstd::prelude::*;

use crate::clock::Weekday;
use crate::units::Timestamp;

verus! {

/// A calendar date, by its number: the first day of the year 1 is the first.
#[derive(Debug, Clone, Copy, PartialEq, Eq, PartialOrd, Ord, Structural)]
pub struct Date {
    pub day: i32,
}

/// The number of the first day of 1970.
pub const EPOCH_DAY: i64 = 719_163;

// --- dates ---------------------------------------------------------------------

/// The year and the day of the year that a date falls on, as `chrono` knows
/// them.
pub uninterp spec fn year_and_ordinal(day: i32) -> Option<(i32, u32)>;

/// The number of a day of a year, as `chrono` knows it.
pub uninterp spec fn day_of_year(year: i32, ordinal: u32) -> Option<i32>;

/// A date as `chrono` writes it.
pub uninterp spec fn date_text(day: i32) -> Option<Seq<char>>;

/// The number of the date that a text gives as year, month and day, as `chrono`
/// reads it.
pub uninterp spec fn date_of(text: Seq<char>) -> Option<i32>;

/// Calls `chrono::NaiveDate::from_num_days_from_ce_opt` and gives the date's
/// `year` and `ordinal`. No date lies outside the years that `chrono` counts, and
/// no year has more than 366 days.
#[verifier::external_body]
fn read_year_and_ordinal(day: i32) -> (out: Option<(i32, u32)>)
    ensures
        out == year_and_ordinal(day),
        out is Some ==> -262_143 <= (out->0).0 <= 262_142 && 1 <= (out->0).1 <= 366,
{
    chrono::NaiveDate::from_num_days_from_ce_opt(day).map(|date| (date.year(), date.ordinal()))
}

/// Calls `chrono::NaiveDate::from_yo_opt` and gives the date's
/// `num_days_from_ce`. The day that it finds falls on that year and on that day
/// of it.
#[verifier::external_body]
fn read_day_of_year(year: i32, ordinal: u32) -> (out: Option<i32>)
    ensures
        out == day_of_year(year, ordinal),
        out is Some ==> year_and_ordinal(out->0) == Some((year, ordinal)),
{
    chrono::NaiveDate::from_yo_opt(year, ordinal).map(|date| date.num_days_from_ce())
}

/// Calls `chrono::NaiveDate::from_num_days_from_ce_opt` and the date's
/// `to_string`. A date of four-digit years is read back as the same date.
#[verifier::external_body]
fn write_date(day: i32) -> (out: Option<String>)
    ensures
        out is Some == date_text(day) is Some,
        out is Some ==> date_text(day) == Some(out->0@),
        out is Some && 1 <= day <= 3_652_059 ==> date_of(out->0@) == Some(day),
{
    chrono::NaiveDate::from_num_days_from_ce_opt(day).map(|date| date.to_string())
}

/// Calls `chrono::NaiveDate::parse_from_str` with the format `%Y-%m-%d` and gives
/// the date's `num_days_from_ce`.
#[verifier::external_body]
fn read_date(text: &str) -> (out: Option<i32>)
    ensures
        out == date_of(text@),
{
    match chrono::NaiveDate::parse_from_str(text, "%Y-%m-%d") {
        Ok(date) => Some(date.num_days_from_ce()),
        Err(_) => None,
    }
}

/// The number of the day that an instant falls on, in UTC.
pub open spec fn utc_day(ms: int) -> int {
    ms / 86_400_000 + EPOCH_DAY
}

pub open spec fn day_number(day: int) -> Option<Date> {
    if i32::MIN <= day <= i32::MAX {
        Some(Date { day: day as i32 })
    } else {
        None
    }
}

/// The floor of a division by a day.
pub fn whole_days(ms: i128) -> (out: i128)
    requires
        -0x1_0000_0000_0000_0000 <= ms <= 0x1_0000_0000_0000_0000,
    ensures
        out == ms as int / 86_400_000,
{
    if ms >= 0 {
        ms / 86_400_000
    } else {
        -((86_399_999 - ms) / 86_400_000)
    }
}

impl Date {
    /// The date at `now`, in UTC.
    pub fn of_utc(now: Timestamp) -> (out: Option<Date>)
        ensures
            out == day_number(utc_day(now.ms as int)),
    {
        let day: i128 = whole_days(now.as_millis() as i128) + EPOCH_DAY as i128;
        if -0x8000_0000 <= day && day <= 0x7fff_ffff {
            Some(Date { day: day as i32 })
        } else {
            None
        }
    }

    /// The date that a text gives as year, month and day.
    pub fn parse(text: &str) -> (out: Option<Date>)
        ensures
            match out {
                Some(date) => date_of(text@) == Some(date.day),
                None => date_of(text@) is None,
            },
    {
        match read_date(text) {
            Some(day) => Some(Date { day }),
            None => None,
        }
    }

    /// How the date is written, where it lies within the calendar.
    pub open spec fn spec_text(self) -> Seq<char> {
        match date_text(self.day) {
            Some(text) => text,
            None => Seq::empty(),
        }
    }

    /// The date as year, month and day, each filled up with zeros. Nothing for a
    /// day that the calendar does not reach.
    pub fn to_string(&self) -> (out: String)
        ensures
            out@ == self.spec_text(),
            1 <= self.day <= 3_652_059 && date_text(self.day) is Some ==> date_of(out@) == Some(
                self.day,
            ),
    {
        match write_date(self.day) {
            Some(text) => text,
            None => {
                let out = String::new();
                assert(out@ =~= Seq::<char>::empty());
                out
            },
        }
    }

    /// The year of the date.
    pub fn year(&self) -> (out: Option<i32>)
        ensures
            match out {
                Some(year) => {
                    &&& year_and_ordinal(self.day) matches Some((y, _))
                    &&& y == year
                    &&& -262_143 <= year <= 262_142
                },
                None => year_and_ordinal(self.day) is None,
            },
    {
        match read_year_and_ordinal(self.day) {
            Some((year, _)) => Some(year),
            None => None,
        }
    }

    /// The day of the year of the date.
    pub fn ordinal(&self) -> (out: Option<u32>)
        ensures
            match out {
                Some(ordinal) => {
                    &&& year_and_ordinal(self.day) matches Some((_, o))
                    &&& o == ordinal
                    &&& 1 <= ordinal <= 366
                },
                None => year_and_ordinal(self.day) is None,
            },
    {
        match read_year_and_ordinal(self.day) {
            Some((_, ordinal)) => Some(ordinal),
            None => None,
        }
    }

    /// A day of a year.
    pub fn of_year(year: i32, ordinal: u32) -> (out: Option<Date>)
        ensures
            match out {
                Some(date) => {
                    &&& day_of_year(year, ordinal) == Some(date.day)
                    &&& year_and_ordinal(date.day) == Some((year, ordinal))
                },
                None => day_of_year(year, ordinal) is None,
            },
    {
        match read_day_of_year(year, ordinal) {
            Some(day) => Some(Date { day }),
            None => None,
        }
    }

    /// The weekday: the first day of all was a Monday.
    pub open spec fn spec_weekday(self) -> Weekday {
        let n = (self.day - 1) % 7;
        if n == 0 {
            Weekday::Mon
        } else if n == 1 {
            Weekday::Tue
        } else if n == 2 {
            Weekday::Wed
        } else if n == 3 {
            Weekday::Thu
        } else if n == 4 {
            Weekday::Fri
        } else if n == 5 {
            Weekday::Sat
        } else {
            Weekday::Sun
        }
    }

    pub fn weekday(&self) -> (out: Weekday)
        ensures
            out == self.spec_weekday(),
    {
        // Moved up by a multiple of seven, past all that is negative.
        let n: i64 = (self.day as i64 - 1 + 7_000_000_000) % 7;
        if n == 0 {
            Weekday::Mon
        } else if n == 1 {
            Weekday::Tue
        } else if n == 2 {
            Weekday::Wed
        } else if n == 3 {
            Weekday::Thu
        } else if n == 4 {
            Weekday::Fri
        } else if n == 5 {
            Weekday::Sat
        } else {
            Weekday::Sun
        }
    }
}

// --- instants ------------------------------------------------------------------

/// What `chrono` reads out of an RFC 3339 text, in milliseconds since the
/// epoch, or why it cannot.
pub uninterp spec fn rfc3339(text: Seq<char>) -> Result<i64, Seq<char>>;

/// Calls `chrono::DateTime::parse_from_rfc3339` and gives its instant as
/// `timestamp_millis` does, or its error in words. Which texts it takes, and
/// what they come to, depends on the text alone.
#[verifier::external_body]
pub(crate) fn read_rfc3339(text: &str) -> (out: Result<i64, String>)
    ensures
        match out {
            Ok(ms) => rfc3339(text@) == Ok::<i64, Seq<char>>(ms),
            Err(error) => rfc3339(text@) == Err::<i64, Seq<char>>(error@),
        },
{
    match chrono::DateTime::parse_from_rfc3339(text) {
        Ok(at) => Ok(at.timestamp_millis()),
        Err(error) => Err(error.to_string()),
    }
}

// --- local time ----------------------------------------------------------------

/// How far local time is ahead of UTC at an instant, in seconds, by the
/// timezone's rules. None for a name that is no timezone, and for an instant that
/// `chrono` does not reach.
pub uninterp spec fn utc_offset(timezone: Seq<char>, ms: i64) -> Option<i32>;

/// Which instants show a local time.
#[derive(Debug, Clone, Copy, PartialEq, Eq, Structural)]
pub enum Instants {
    /// The clocks are put forward over it.
    Nowhere,
    Once(i64),
    /// The clocks are put back over it: the earlier instant, and the later.
    Twice(i64, i64),
}

/// Which instants show a local time, by the timezone's rules. The local time is
/// counted in milliseconds, as if it were UTC.
pub uninterp spec fn instants_of(timezone: Seq<char>, local: i64) -> Instants;

/// Whether a local clock shows `local` at an instant.
pub open spec fn shows(timezone: Seq<char>, at: i64, local: i64) -> bool {
    utc_offset(timezone, at) matches Some(offset) && at + offset * 1000 == local
}

/// Parses the name as a `chrono_tz::Tz` and asks that for the offset at
/// `timestamp_millis_opt`. An offset is less than a day.
#[verifier::external_body]
fn read_offset(timezone: &str, ms: i64) -> (out: Option<i32>)
    ensures
        out == utc_offset(timezone@, ms),
        out is Some ==> -86_400 < out->0 < 86_400,
{
    match timezone.parse::<chrono_tz::Tz>() {
        Ok(tz) => tz.timestamp_millis_opt(ms).single().map(|at| at.offset().fix().local_minus_utc()),
        Err(_) => None,
    }
}

/// Parses the name as a `chrono_tz::Tz` and asks that for `from_local_datetime`,
/// by its three variants. An instant that it gives shows the local time asked
/// for. None, where the name is no timezone or `chrono` does not reach the time.
#[verifier::external_body]
fn read_instants(timezone: &str, local: i64) -> (out: Instants)
    ensures
        out == instants_of(timezone@, local),
        out is Once ==> shows(timezone@, out->Once_0, local),
        out is Twice ==> shows(timezone@, out->Twice_0, local) && shows(
            timezone@,
            out->Twice_1,
            local,
        ),
{
    let naive = chrono::DateTime::from_timestamp_millis(local).map(|at| at.naive_utc());
    match (timezone.parse::<chrono_tz::Tz>(), naive) {
        (Ok(tz), Some(naive)) => match tz.from_local_datetime(&naive) {
            chrono::MappedLocalTime::None => Instants::Nowhere,
            chrono::MappedLocalTime::Single(a) => Instants::Once(a.timestamp_millis()),
            chrono::MappedLocalTime::Ambiguous(a, b) => {
                Instants::Twice(a.timestamp_millis(), b.timestamp_millis())
            },
        },
        _ => Instants::Nowhere,
    }
}

/// What a local clock shows at an instant, counted as if it were UTC.
pub open spec fn local_time(timezone: Seq<char>, now: Timestamp) -> Option<int> {
    match utc_offset(timezone, now.ms) {
        Some(offset) => Some(now.ms + offset * 1000),
        None => None,
    }
}

/// What a local clock shows at an instant.
pub fn local(timezone: &str, now: Timestamp) -> (out: Option<i128>)
    ensures
        match out {
            Some(ms) => {
                &&& local_time(timezone@, now) == Some(ms as int)
                &&& now.ms - 86_400_000 <= ms <= now.ms + 86_400_000
            },
            None => local_time(timezone@, now) is None,
        },
{
    match read_offset(timezone, now.as_millis()) {
        Some(offset) => Some(now.as_millis() as i128 + offset as i128 * 1000),
        None => None,
    }
}

/// The instant that counts as the start of a local day, given which instants
/// show it: the earlier where there are two, and `now` where there is none.
pub open spec fn start_of_day(instants: Instants, now: Timestamp) -> Timestamp {
    match instants {
        Instants::Once(at) => Timestamp { ms: at },
        Instants::Twice(at, _) => Timestamp { ms: at },
        Instants::Nowhere => now,
    }
}

/// The instant that counts as the start of a local day.
pub fn day_start(instants: Instants, now: Timestamp) -> (out: Timestamp)
    ensures
        out == start_of_day(instants, now),
{
    match instants {
        Instants::Once(at) => Timestamp::from_millis(at),
        Instants::Twice(at, _) => Timestamp::from_millis(at),
        Instants::Nowhere => now,
    }
}

/// The midnight before a local time.
pub open spec fn midnight_before(local: int) -> int {
    local / 86_400_000 * 86_400_000
}

/// The start of the local day of an instant.
pub open spec fn midnight_of(timezone: Seq<char>, now: Timestamp) -> Timestamp {
    match local_time(timezone, now) {
        Some(local) if i64::MIN <= midnight_before(local) <= i64::MAX => start_of_day(
            instants_of(timezone, midnight_before(local) as i64),
            now,
        ),
        _ => now,
    }
}

/// The start of `now`'s calendar day in `timezone`, or `now` itself where that
/// cannot be told: a day that has no midnight, for one.
pub fn local_midnight(now: Timestamp, timezone: &str) -> (out: Timestamp)
    ensures
        out == midnight_of(timezone@, now),
        out == now || (local_time(timezone@, now) is Some && shows(
            timezone@,
            out.ms,
            midnight_before(local_time(timezone@, now)->0) as i64,
        )),
{
    match local(timezone, now) {
        Some(local) => {
            let days: i128 = whole_days(local);
            let midnight: i128 = days * 86_400_000;
            if midnight < -0x8000_0000_0000_0000 || midnight > 0x7fff_ffff_ffff_ffff {
                return now;
            }
            day_start(read_instants(timezone, midnight as i64), now)
        },
        None => now,
    }
}

/// A local midnight is the same day's midnight: its clock shows the same date,
/// and no time past it.
pub proof fn midnight_is_the_start_of_the_day(timezone: Seq<char>, now: Timestamp, midnight: i64)
    requires
        local_time(timezone, now) is Some,
        shows(timezone, midnight, midnight_before(local_time(timezone, now)->0) as i64),
        i64::MIN <= midnight_before(local_time(timezone, now)->0) <= i64::MAX,
    ensures
        ({
            let shown = local_time(timezone, now)->0;
            let start = local_time(timezone, Timestamp { ms: midnight })->0;
            &&& utc_day(start) == utc_day(shown)
            &&& start % 86_400_000 == 0
            &&& start <= shown
        }),
{
}

/// A day has as many milliseconds, and the next has the next number. The first of 1970
/// begins the count of instants.
pub proof fn days_follow_each_other(ms: int)
    ensures
        utc_day(ms + 24 * 60 * 60 * 1000) == utc_day(ms) + 1,
        0 <= ms - (utc_day(ms) - 719_163) * 24 * 60 * 60 * 1000 < 24 * 60 * 60 * 1000,
        utc_day(0) == 719_163,
        i32::MIN <= utc_day(ms) <= i32::MAX ==> day_number(utc_day(ms)) == Some(
            Date { day: utc_day(ms) as i32 },
        ),
        utc_day(ms) > i32::MAX || utc_day(ms) < i32::MIN ==> day_number(utc_day(ms)) is None,
{
}

/// Weekdays follow each other, and the first of 1970 was a Thursday.
pub proof fn weekdays_follow_each_other(date: Date, next: Date)
    requires
        next.day == date.day + 1,
    ensures
        next.spec_weekday() == match date.spec_weekday() {
            Weekday::Mon => Weekday::Tue,
            Weekday::Tue => Weekday::Wed,
            Weekday::Wed => Weekday::Thu,
            Weekday::Thu => Weekday::Fri,
            Weekday::Fri => Weekday::Sat,
            Weekday::Sat => Weekday::Sun,
            Weekday::Sun => Weekday::Mon,
        },
        (Date { day: 719_163 }).spec_weekday() == Weekday::Thu,
{
}

/// The midnight before a local time is the last one, and less than a day ago.
pub proof fn midnight_is_less_than_a_day_ago(local: int)
    ensures
        0 <= local - midnight_before(local) < 24 * 60 * 60 * 1000,
        midnight_before(local) % 86_400_000 == 0,
{
}

/// A local clock is ahead of UTC by the offset of its timezone, and has none where the
/// timezone is not known.
pub proof fn a_local_clock_is_ahead_by_its_offset(timezone: Seq<char>, now: Timestamp)
    ensures
        utc_offset(timezone, now.ms) matches Some(offset) ==> (local_time(
            timezone,
            now,
        ) matches Some(local) && local - now.ms == offset * 1000),
        utc_offset(timezone, now.ms) is None ==> local_time(timezone, now) is None,
{
}

/// A day starts at the instant that shows its midnight: the earlier where the clocks show
/// it twice, and now where they never do.
pub proof fn a_day_starts_once(first: i64, second: i64, now: Timestamp)
    ensures
        start_of_day(Instants::Once(first), now).ms == first,
        start_of_day(Instants::Twice(first, second), now).ms == first,
        start_of_day(Instants::Nowhere, now) == now,
{
}

/// Where a timezone is not known, the day starts now.
pub proof fn an_unknown_day_starts_now(timezone: Seq<char>, now: Timestamp)
    ensures
        utc_offset(timezone, now.ms) is None ==> midnight_of(timezone, now) == now,
        utc_offset(timezone, now.ms) matches Some(offset) ==> forall|midnight: i64|
            0 <= now.ms + offset * 1000 - midnight < 86_400_000 && midnight % 86_400_000 == 0
                ==> midnight_of(timezone, now) == start_of_day(
                #[trigger] instants_of(timezone, midnight),
                now,
            ),
{
    if let Some(offset) = utc_offset(timezone, now.ms) {
        let local = now.ms + offset * 1000;
        assert forall|midnight: i64|
            0 <= local - midnight < 86_400_000 && midnight % 86_400_000 == 0 implies midnight_of(
            timezone,
            now,
        ) == start_of_day(#[trigger] instants_of(timezone, midnight), now) by {
            assert(midnight_before(local) == midnight);
        }
    }
}

} // verus!
