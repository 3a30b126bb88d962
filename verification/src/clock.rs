//! Time as the decision logic sees it.

use vstd::prelude::*;

use crate::calendar;
use crate::calendar::{
    day_number, local_time, utc_day, year_and_ordinal, Date, EPOCH_DAY,
};
use crate::units::Timestamp;

verus! {

#[derive(Debug, Clone, Copy, PartialEq, Eq, Structural)]
pub enum Weekday {
    Mon,
    Tue,
    Wed,
    Thu,
    Fri,
    Sat,
    Sun,
}

impl Weekday {
    /// The first three letters of the day.
    pub open spec fn spec_name(self) -> Seq<char> {
        match self {
            Weekday::Mon => "Mon"@,
            Weekday::Tue => "Tue"@,
            Weekday::Wed => "Wed"@,
            Weekday::Thu => "Thu"@,
            Weekday::Fri => "Fri"@,
            Weekday::Sat => "Sat"@,
            Weekday::Sun => "Sun"@,
        }
    }

    pub fn as_str(self) -> (out: &'static str)
        ensures
            out@ == self.spec_name(),
    {
        match self {
            Weekday::Mon => "Mon",
            Weekday::Tue => "Tue",
            Weekday::Wed => "Wed",
            Weekday::Thu => "Thu",
            Weekday::Fri => "Fri",
            Weekday::Sat => "Sat",
            Weekday::Sun => "Sun",
        }
    }
}

/// Time context captured at the edge and handed to the controller, so that
/// decision logic never reads a clock itself. `now` is wall-clock time, not a
/// monotonic instant, so that a recorded event replays identically later.
#[derive(Debug, Clone, Copy, PartialEq, Eq, Structural)]
pub struct Clock {
    pub now: Timestamp,
    /// Hour of day (0 to 23) in the configured timezone.
    pub hour: u32,
    /// Day of year (1 to 366) in the configured timezone.
    pub day_ordinal: u32,
    /// Weekday in the configured timezone.
    pub weekday: Weekday,
}

/// The time of day that a local clock shows, counted in milliseconds.
pub open spec fn time_of_day(local: int) -> int {
    local % 86_400_000
}

/// The clock that shows a local time.
pub open spec fn shows_clock(clock: Clock, now: Timestamp, local: int) -> bool {
    &&& clock.now == now
    &&& clock.hour == time_of_day(local) / 3_600_000
    &&& day_number(utc_day(local)) matches Some(date)
    &&& clock.weekday == date.spec_weekday()
    &&& year_and_ordinal(date.day) matches Some((_, ordinal))
    &&& clock.day_ordinal == ordinal
}

impl Clock {
    /// What the clocks of a timezone show at `now`. Nothing where the timezone
    /// or the calendar does not reach it.
    pub fn at(now: Timestamp, timezone: &str) -> (out: Option<Clock>)
        ensures
            match out {
                Some(clock) => local_time(timezone@, now) matches Some(local) && shows_clock(
                    clock,
                    now,
                    local,
                ),
                None => local_time(timezone@, now) matches Some(local) ==> match day_number(
                    utc_day(local),
                ) {
                    Some(date) => year_and_ordinal(date.day) is None,
                    None => true,
                },
            },
    {
        let shown: i128 = match calendar::local(timezone, now) {
            Some(shown) => shown,
            None => return None,
        };
        let day: i128 = calendar::whole_days(shown);
        let number: i128 = day + EPOCH_DAY as i128;
        if number < -0x8000_0000 || number > 0x7fff_ffff {
            return None;
        }
        let date = Date { day: number as i32 };
        match date.ordinal() {
            Some(day_ordinal) => Some(
                Clock {
                    now,
                    hour: ((shown - day * 86_400_000) / 3_600_000) as u32,
                    day_ordinal,
                    weekday: date.weekday(),
                },
            ),
            None => None,
        }
    }
}

/// A clock shows the hour of its local time, and the weekday and the day of the year of
/// its local date.
pub proof fn a_clock_shows_its_local_time(clock: Clock, now: Timestamp, local: int)
    requires
        shows_clock(clock, now, local),
    ensures
        clock.now == now,
        clock.hour < 24,
        0 <= local % 86_400_000 - clock.hour * 3_600_000 < 3_600_000,
        forall|date: Date|
            date.day == utc_day(local) ==> clock.weekday == #[trigger] date.spec_weekday(),
        year_and_ordinal(utc_day(local) as i32) matches Some((year, ordinal))
            ==> clock.day_ordinal == ordinal,
{
}

/// A weekday is called by the first three letters of its name.
pub proof fn a_weekday_has_three_letters(day: Weekday)
    ensures
        day.spec_name().len() == 3,
        day.spec_name() == match day {
            Weekday::Mon => "Monday"@,
            Weekday::Tue => "Tuesday"@,
            Weekday::Wed => "Wednesday"@,
            Weekday::Thu => "Thursday"@,
            Weekday::Fri => "Friday"@,
            Weekday::Sat => "Saturday"@,
            Weekday::Sun => "Sunday"@,
        }.take(3),
{
    reveal_strlit("Mon");
    reveal_strlit("Tue");
    reveal_strlit("Wed");
    reveal_strlit("Thu");
    reveal_strlit("Fri");
    reveal_strlit("Sat");
    reveal_strlit("Sun");
    reveal_strlit("Monday");
    reveal_strlit("Tuesday");
    reveal_strlit("Wednesday");
    reveal_strlit("Thursday");
    reveal_strlit("Friday");
    reveal_strlit("Saturday");
    reveal_strlit("Sunday");
    match day {
        Weekday::Mon => assert(day.spec_name() =~= "Monday"@.take(3)),
        Weekday::Tue => assert(day.spec_name() =~= "Tuesday"@.take(3)),
        Weekday::Wed => assert(day.spec_name() =~= "Wednesday"@.take(3)),
        Weekday::Thu => assert(day.spec_name() =~= "Thursday"@.take(3)),
        Weekday::Fri => assert(day.spec_name() =~= "Friday"@.take(3)),
        Weekday::Sat => assert(day.spec_name() =~= "Saturday"@.take(3)),
        Weekday::Sun => assert(day.spec_name() =~= "Sunday"@.take(3)),
    }
}

} // verus!
