//! A synthetic forecast: a bell of daylight, with no network and no quota
//! behind it.

use vstd::prelude::*;

use crate::calendar::whole_days;
use crate::units::{saturate_i64, saturated_i64, SolarForecastPoint, SolarPower, Timestamp};

verus! {

/// A rooftop array's rough peak output, in watts.
pub const PEAK: i32 = 4000;

/// A forecaster that makes its forecast up.
#[derive(Debug, Clone, Copy, PartialEq, Eq)]
pub struct SimulatedForecaster;

impl SimulatedForecaster {
    pub fn new() -> (out: Self)
        ensures
            out == SimulatedForecaster,
    {
        SimulatedForecaster
    }
}

/// The moment of the `i`th half hour from `from` on.
pub open spec fn half_hour(from: Timestamp, i: int) -> Timestamp {
    Timestamp { ms: saturated_i64(from.ms + i * 1_800_000) as i64 }
}

/// The minute of the day that a moment falls in, in UTC.
pub open spec fn minute_of(at: Timestamp) -> int {
    (at.ms as int % 86_400_000) / 60_000
}

/// From six in the morning to eight in the evening.
pub open spec fn is_daylight(minute: int) -> bool {
    360 <= minute <= 1200
}

/// The `i`th point of a forecast, given how bright each minute of a day is.
pub open spec fn sky_point(
    from: Timestamp,
    brightness: Seq<SolarPower>,
    i: int,
) -> SolarForecastPoint {
    let at = half_hour(from, i);
    SolarForecastPoint {
        at,
        estimate: if is_daylight(minute_of(at)) {
            brightness[minute_of(at)]
        } else {
            SolarPower::zero()
        },
    }
}

/// The minute of the day that a moment falls in.
fn minute(at: Timestamp) -> (out: usize)
    ensures
        out == minute_of(at),
        out < 1440,
{
    let ms: i128 = at.as_millis() as i128;
    let since_midnight: i128 = ms - whole_days(ms) * 86_400_000;
    (since_midnight / 60_000) as usize
}

/// Zero outside of daylight, and what `brightness` says of the minute within
/// it, every half hour of the day that starts at `from`. Not tied to any place.
pub fn clear_sky_curve(from: Timestamp, brightness: &Vec<SolarPower>) -> (out: Vec<
    SolarForecastPoint,
>)
    requires
        brightness@.len() == 1440,
    ensures
        out@ == Seq::new(48, |i: int| sky_point(from, brightness@, i)),
{
    let mut out: Vec<SolarForecastPoint> = Vec::new();
    let ghost all = Seq::new(48, |i: int| sky_point(from, brightness@, i));
    for i in 0..48u32
        invariant
            brightness@.len() == 1440,
            all == Seq::new(48, |i: int| sky_point(from, brightness@, i)),
            out@ == all.take(i as int),
    {
        let at = Timestamp::from_millis(
            saturate_i64(from.as_millis() as i128 + i as i128 * 1_800_000),
        );
        let m: usize = minute(at);
        let estimate = if 360 <= m && m <= 1200 {
            brightness[m]
        } else {
            SolarPower::zero()
        };
        out.push(SolarForecastPoint { at, estimate });
        assert(out@ =~= all.take(i + 1));
    }
    assert(all.take(48) =~= all);
    out
}

/// The forecast is dark at night, whatever the brightness is said to be.
pub proof fn nights_are_dark(from: Timestamp, brightness: Seq<SolarPower>, i: int)
    requires
        0 <= i < 48,
        !is_daylight(minute_of(half_hour(from, i))),
    ensures
        sky_point(from, brightness, i).estimate == SolarPower::zero(),
{
}

/// A forecast has a point every half hour from its start on. Between six in the
/// morning and eight in the evening, in UTC, it is as bright as its minute is; outside
/// it is dark.
pub proof fn a_clear_sky_follows_the_day(
    from: Timestamp,
    brightness: Seq<SolarPower>,
    i: int,
    day: int,
    minute: int,
    rest: int,
)
    requires
        0 <= i < 48,
        from.ms + i * 30 * 60 * 1000 == day * 86_400_000 + minute * 60_000 + rest,
        0 <= minute < 1440,
        0 <= rest < 60_000,
        from.ms + i * 30 * 60 * 1000 <= i64::MAX,
    ensures
        ({
            let point = sky_point(from, brightness, i);
            &&& point.at.ms == from.ms + i * 30 * 60 * 1000
            &&& 6 * 60 <= minute <= 20 * 60 ==> point.estimate == brightness[minute]
            &&& minute < 6 * 60 || minute > 20 * 60 ==> point.estimate.mw == 0
        }),
{
}

} // verus!
