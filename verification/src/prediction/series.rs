//! Series of forecast points: one estimate to a moment, in the order of time.

use vstd::prelude::*;

use crate::units::{saturate_i64, saturated_i64, SolarForecastPoint, SolarPower, Timestamp};

verus! {

/// An estimate in milliwatts for each moment that there is one for.
pub type Series = Map<int, int>;

/// Every moment of a series once, in the order of time.
pub open spec fn is_series(list: Seq<SolarForecastPoint>, series: Series) -> bool {
    &&& forall|i: int, j: int|
        0 <= i < j < list.len() ==> (#[trigger] list[i]).at.ms < (#[trigger] list[j]).at.ms
    &&& forall|i: int|
        0 <= i < list.len() ==> series.contains_key((#[trigger] list[i]).at.ms as int)
            && series[list[i].at.ms as int] == list[i].estimate.mw
    &&& forall|k: int| #[trigger]
        series.contains_key(k) ==> exists|i: int|
            0 <= i < list.len() && (#[trigger] list[i]).at.ms == k
}

/// A series, once the first `n` points are put into it. Of two for one moment,
/// the later counts.
pub open spec fn replaced(series: Series, points: Seq<SolarForecastPoint>, n: int) -> Series
    decreases n,
{
    if n <= 0 {
        series
    } else {
        let p = points[n - 1];
        replaced(series, points, n - 1).insert(p.at.ms as int, p.estimate.mw as int)
    }
}

/// The estimate for a moment, or nothing at all.
pub open spec fn estimate_at(series: Series, at: int) -> int {
    if series.contains_key(at) {
        series[at]
    } else {
        0
    }
}

/// A series, once the first `n` points are added to it.
pub open spec fn summed(series: Series, points: Seq<SolarForecastPoint>, n: int) -> Series
    decreases n,
{
    if n <= 0 {
        series
    } else {
        let p = points[n - 1];
        let before = summed(series, points, n - 1);
        before.insert(
            p.at.ms as int,
            saturated_i64(estimate_at(before, p.at.ms as int) + p.estimate.mw),
        )
    }
}

/// A series without what lies before an instant.
pub open spec fn from_on(series: Series, start: int) -> Series {
    series.restrict(Set::new(|k: int| k >= start))
}

/// Putting one point into a series keeps a list of it.
proof fn point_put(list: Seq<SolarForecastPoint>, series: Series, at: int, p: SolarForecastPoint)
    requires
        is_series(list, series),
        0 <= at <= list.len(),
        forall|i: int| 0 <= i < at ==> (#[trigger] list[i]).at.ms < p.at.ms,
        forall|i: int| at < i < list.len() ==> p.at.ms < (#[trigger] list[i]).at.ms,
        at < list.len() ==> p.at.ms <= list[at].at.ms,
    ensures
        ({
            let key = p.at.ms as int;
            let known = at < list.len() && list[at].at.ms == p.at.ms;
            &&& series.contains_key(key) == known
            &&& known ==> series[key] == list[at].estimate.mw
            &&& is_series(
                if known {
                    list.update(at, p)
                } else {
                    list.insert(at, p)
                },
                series.insert(key, p.estimate.mw as int),
            )
        }),
{
    let key = p.at.ms as int;
    let known = at < list.len() && list[at].at.ms == p.at.ms;
    let map = series.insert(key, p.estimate.mw as int);
    if !known && series.contains_key(key) {
        let i = choose|i: int| 0 <= i < list.len() && (#[trigger] list[i]).at.ms == key;
        assert(false);
    }
    if known {
        let after = list.update(at, p);
        assert forall|i: int, j: int| 0 <= i < j < after.len() implies (
        #[trigger] after[i]).at.ms < (#[trigger] after[j]).at.ms by {
            assert(list[i].at.ms < list[j].at.ms);
        }
        assert forall|i: int| 0 <= i < after.len() implies map.contains_key(
            (#[trigger] after[i]).at.ms as int,
        ) && map[after[i].at.ms as int] == after[i].estimate.mw by {
            if i != at {
                assert(list[i].at.ms != key);
            }
        }
        assert forall|k: int| #[trigger] map.contains_key(k) implies exists|i: int|
            0 <= i < after.len() && (#[trigger] after[i]).at.ms == k by {
            if k == key {
                assert(after[at].at.ms == k);
            } else {
                let i = choose|i: int| 0 <= i < list.len() && (#[trigger] list[i]).at.ms == k;
                assert(after[i].at.ms == k);
            }
        }
    } else {
        let after = list.insert(at, p);
        let old_at = |i: int|
            if i < at {
                i
            } else {
                i - 1
            };
        assert forall|i: int, j: int| 0 <= i < j < after.len() implies (
        #[trigger] after[i]).at.ms < (#[trigger] after[j]).at.ms by {
            if i != at {
                assert(after[i] == list[old_at(i)]);
            }
            if j != at {
                assert(after[j] == list[old_at(j)]);
            }
        }
        assert forall|i: int| 0 <= i < after.len() implies map.contains_key(
            (#[trigger] after[i]).at.ms as int,
        ) && map[after[i].at.ms as int] == after[i].estimate.mw by {
            if i != at {
                assert(after[i] == list[old_at(i)]);
            }
        }
        assert forall|k: int| #[trigger] map.contains_key(k) implies exists|i: int|
            0 <= i < after.len() && (#[trigger] after[i]).at.ms == k by {
            if k == key {
                assert(after[at].at.ms == k);
            } else {
                let i = choose|i: int| 0 <= i < list.len() && (#[trigger] list[i]).at.ms == k;
                if i < at {
                    assert(after[i].at.ms == k);
                } else {
                    assert(after[i + 1].at.ms == k);
                }
            }
        }
    }
}

/// Where the point for a moment stands, or would stand.
fn place(list: &Vec<SolarForecastPoint>, at: Timestamp, Ghost(series): Ghost<Series>) -> (out:
    usize)
    requires
        is_series(list@, series),
    ensures
        out <= list@.len(),
        forall|i: int| 0 <= i < out ==> (#[trigger] list@[i]).at.ms < at.ms,
        forall|i: int| out < i < list@.len() ==> at.ms < (#[trigger] list@[i]).at.ms,
        out < list@.len() ==> at.ms <= list@[out as int].at.ms,
{
    let mut out: usize = 0;
    while out < list.len() && list[out].at.as_millis() < at.as_millis()
        invariant
            out <= list.len(),
            forall|i: int| 0 <= i < out ==> (#[trigger] list@[i]).at.ms < at.ms,
        decreases list.len() - out,
    {
        out += 1;
    }
    proof {
        assert forall|i: int| out < i < list@.len() implies at.ms < (
        #[trigger] list@[i]).at.ms by {
            assert(list@[out as int].at.ms < list@[i].at.ms);
        }
    }
    out
}

/// Puts a point into a series.
pub fn put_point(
    list: &mut Vec<SolarForecastPoint>,
    point: SolarForecastPoint,
    Ghost(series): Ghost<Series>,
)
    requires
        is_series(old(list)@, series),
    ensures
        is_series(final(list)@, series.insert(point.at.ms as int, point.estimate.mw as int)),
{
    let at = place(list, point.at, Ghost(series));
    proof {
        point_put(list@, series, at as int, point);
    }
    if at < list.len() && list[at].at.as_millis() == point.at.as_millis() {
        list.set(at, point);
    } else {
        list.insert(at, point);
    }
}

/// Adds a point to a series.
pub fn add_point(
    list: &mut Vec<SolarForecastPoint>,
    point: SolarForecastPoint,
    Ghost(series): Ghost<Series>,
)
    requires
        is_series(old(list)@, series),
    ensures
        is_series(
            final(list)@,
            series.insert(
                point.at.ms as int,
                saturated_i64(estimate_at(series, point.at.ms as int) + point.estimate.mw),
            ),
        ),
{
    let at = place(list, point.at, Ghost(series));
    proof {
        point_put(list@, series, at as int, point);
    }
    if at < list.len() && list[at].at.as_millis() == point.at.as_millis() {
        let sum: i64 = saturate_i64(list[at].estimate.mw as i128 + point.estimate.mw as i128);
        let total = SolarForecastPoint { at: point.at, estimate: SolarPower { mw: sum } };
        proof {
            point_put(list@, series, at as int, total);
        }
        list.set(at, total);
    } else {
        list.insert(at, point);
    }
}

/// A list of a series without what lies before an instant.
pub fn keep_from(
    list: &Vec<SolarForecastPoint>,
    start: Timestamp,
    Ghost(series): Ghost<Series>,
) -> (out: Vec<SolarForecastPoint>)
    requires
        is_series(list@, series),
    ensures
        is_series(out@, from_on(series, start.ms as int)),
{
    let first = place(list, start, Ghost(series));
    let mut out: Vec<SolarForecastPoint> = Vec::new();
    for i in first..list.len()
        invariant
            first <= list@.len(),
            out@ == list@.subrange(first as int, i as int),
    {
        out.push(list[i]);
        assert(out@ =~= list@.subrange(first as int, i + 1));
    }
    proof {
        let kept = from_on(series, start.ms as int);
        assert forall|i: int, j: int| 0 <= i < j < out@.len() implies (#[trigger] out@[i]).at.ms < (
        #[trigger] out@[j]).at.ms by {
            assert(list@[first + i].at.ms < list@[first + j].at.ms);
        }
        assert forall|i: int| 0 <= i < out@.len() implies kept.contains_key(
            (#[trigger] out@[i]).at.ms as int,
        ) && kept[out@[i].at.ms as int] == out@[i].estimate.mw by {
            assert(out@[i] == list@[first + i]);
        }
        assert forall|k: int| #[trigger] kept.contains_key(k) implies exists|i: int|
            0 <= i < out@.len() && (#[trigger] out@[i]).at.ms == k by {
            assert(series.contains_key(k));
            let i = choose|i: int| 0 <= i < list@.len() && (#[trigger] list@[i]).at.ms == k;
            assert(out@[i - first] == list@[i]);
        }
    }
    out
}

// --- laws ----------------------------------------------------------------------

/// Points for different moments do not touch each other, and one point replaces what
/// was known of its own moment.
pub proof fn a_point_is_put_at_its_moment(
    series: Series,
    points: Seq<SolarForecastPoint>,
    n: int,
    at: int,
)
    requires
        0 < n <= points.len(),
    ensures
        ({
            let before = replaced(series, points, n - 1);
            let after = replaced(series, points, n);
            let p = points[n - 1];
            &&& after.contains_key(p.at.ms as int)
            &&& after[p.at.ms as int] == p.estimate.mw
            &&& at != p.at.ms ==> (after.contains_key(at) <==> before.contains_key(at)) && (
            before.contains_key(at) ==> after[at] == before[at])
        }),
        replaced(series, points, 0) == series,
{
}

/// What lies before an instant goes, and what does not stays as it is.
pub proof fn what_is_past_goes(series: Series, start: int, at: int)
    ensures
        from_on(series, start).contains_key(at) <==> series.contains_key(at) && at >= start,
        from_on(series, start).contains_key(at) ==> from_on(series, start)[at] == series[at],
{
}

/// A list of a series holds each moment once, in the order of time, with its own
/// estimate.
pub proof fn a_list_is_in_the_order_of_time(
    list: Seq<SolarForecastPoint>,
    series: Series,
    i: int,
    at: int,
)
    requires
        is_series(list, series),
    ensures
        0 < i < list.len() ==> list[i - 1].at.ms < list[i].at.ms,
        0 <= i < list.len() ==> series.contains_key(list[i].at.ms as int)
            && series[list[i].at.ms as int] == list[i].estimate.mw,
        series.contains_key(at) ==> exists|k: int|
            0 <= k < list.len() && (#[trigger] list[k]).at.ms == at && list[k].estimate.mw
                == series[at],
{
    if series.contains_key(at) {
        let k = choose|k: int| 0 <= k < list.len() && (#[trigger] list[k]).at.ms == at;
        assert(list[k].estimate.mw == series[at]);
    }
}

} // verus!
