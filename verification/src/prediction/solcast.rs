//! Forecasts of Solcast: two rooftop sites of one array, summed into one
//! series.

use vstd::prelude::*;

use crate::calendar::{read_rfc3339, rfc3339};
use crate::json;
use crate::json::{
    doc_is_its_parts, docs_of, field, get, json_of, mismatch, say_mismatch, Doc, Json,
};
use crate::number;
use crate::number::{a_json_number_is_read_back, powers_of_ten, scientific_of};
use crate::prediction::series;
use crate::prediction::series::{estimate_at, is_series, summed, Series};
use crate::text;
use crate::text::{decimal, signed};
use crate::units::{saturated_i64, SolarForecastPoint, SolarPower, Timestamp};

verus! {

/// Two sites, and the key to ask for them with.
pub struct SolcastForecaster {
    pub api_key: String,
    pub site_east: String,
    pub site_west: String,
}

/// Where the forecast of a site is.
pub open spec fn site_url(site_id: Seq<char>, api_key: Seq<char>) -> Seq<char> {
    "https://api.solcast.com.au/rooftop_sites/"@ + site_id + "/forecasts?format=json&api_key="@
        + api_key
}

impl SolcastForecaster {
    pub fn new(api_key: String, site_east: String, site_west: String) -> (out: Self)
        ensures
            out == (SolcastForecaster { api_key, site_east, site_west }),
    {
        SolcastForecaster { api_key, site_east, site_west }
    }

    /// Where the forecast of a site is. It carries the key, and is never to be
    /// logged.
    pub fn url(&self, site_id: &str) -> (out: String)
        ensures
            out@ == site_url(site_id@, self.api_key@),
    {
        let mut out = "https://api.solcast.com.au/rooftop_sites/".to_owned();
        out.append(site_id);
        out.append("/forecasts?format=json&api_key=");
        out.append(self.api_key.as_str());
        out
    }
}

// --- summing -------------------------------------------------------------------

/// Sums two series by their moments. A moment that only one of them has is
/// kept. The result is in the order of time.
pub fn combine_series(a: &[SolarForecastPoint], b: &[SolarForecastPoint]) -> (out: Vec<
    SolarForecastPoint,
>)
    ensures
        is_series(
            out@,
            summed(summed(Map::empty(), a@, a@.len() as int), b@, b@.len() as int),
        ),
{
    let mut totals: Vec<SolarForecastPoint> = Vec::new();
    for i in 0..a.len()
        invariant
            is_series(totals@, summed(Map::empty(), a@, i as int)),
    {
        series::add_point(&mut totals, a[i], Ghost(summed(Map::empty(), a@, i as int)));
    }
    let ghost first: Series = summed(Map::empty(), a@, a@.len() as int);
    for i in 0..b.len()
        invariant
            is_series(totals@, summed(first, b@, i as int)),
    {
        series::add_point(&mut totals, b[i], Ghost(summed(first, b@, i as int)));
    }
    totals
}

// --- reading -------------------------------------------------------------------

/// The power of an entry in milliwatts, from kilowatts.
pub open spec fn estimate_of(doc: Doc) -> Result<int, Seq<char>> {
    match doc {
        Doc::Number(number) => match scientific_of(number, 6) {
            Some(mw) => Ok(saturated_i64(mw)),
            None => Err(mismatch("f64"@, doc)),
        },
        _ => Err(mismatch("f64"@, doc)),
    }
}

/// The end of an entry's period.
pub open spec fn end_of(doc: Doc) -> Result<Seq<char>, Seq<char>> {
    match doc {
        Doc::Text(end) => Ok(end),
        _ => Err(mismatch("a string"@, doc)),
    }
}

/// What one entry of a response says: its power, and the end of its period. A
/// value that is wrong is complained of before one that is missing.
pub open spec fn entry_of_values(estimate: Option<Doc>, end: Option<Doc>) -> Result<
    (int, Seq<char>),
    Seq<char>,
> {
    match (estimate, end) {
        (Some(estimate), Some(end)) => match (estimate_of(estimate), end_of(end)) {
            (Ok(mw), Ok(end)) => Ok((mw, end)),
            (Err(e), _) => Err(e),
            (_, Err(e)) => Err(e),
        },
        (Some(estimate), None) => match estimate_of(estimate) {
            Ok(_) => Err("missing field `period_end`"@),
            Err(e) => Err(e),
        },
        (None, Some(end)) => match end_of(end) {
            Ok(_) => Err("missing field `pv_estimate`"@),
            Err(e) => Err(e),
        },
        (None, None) => Err("missing field `pv_estimate`"@),
    }
}

/// What one entry of a response says: an object with two fields, or a list of
/// their values in order.
pub open spec fn entry_of(doc: Doc) -> Result<(int, Seq<char>), Seq<char>> {
    match doc {
        Doc::Object(fields) => entry_of_values(
            field(fields, "pv_estimate"@),
            field(fields, "period_end"@),
        ),
        Doc::Array(values) => if values.len() == 2 {
            entry_of_values(Some(values[0]), Some(values[1]))
        } else if values.len() < 2 {
            Err(
                "invalid length "@ + decimal(values.len())
                    + ", expected struct SolcastEntry with 2 elements"@,
            )
        } else {
            Err("trailing characters"@)
        },
        _ => Err(mismatch("struct SolcastEntry"@, doc)),
    }
}

/// The point of an entry, unless its period ends at no instant.
pub open spec fn point_of(mw: int, read: Result<i64, Seq<char>>) -> Option<SolarForecastPoint> {
    match read {
        Ok(ms) => Some(
            SolarForecastPoint { at: Timestamp { ms }, estimate: SolarPower { mw: mw as i64 } },
        ),
        Err(_) => None,
    }
}

/// The points of the first `n` entries, without those whose period ends at no
/// instant.
pub open spec fn points_of(entries: Seq<Doc>, n: int) -> Result<Seq<SolarForecastPoint>, Seq<char>>
    decreases n,
{
    if n <= 0 {
        Ok(Seq::empty())
    } else {
        match points_of(entries, n - 1) {
            Err(error) => Err(error),
            Ok(front) => match entry_of(entries[n - 1]) {
                Err(error) => Err(error),
                Ok((mw, end)) => match point_of(mw, rfc3339(end)) {
                    Some(point) => Ok(front.push(point)),
                    None => Ok(front),
                },
            },
        }
    }
}

/// What a list of forecasts says.
pub open spec fn forecasts_of(doc: Doc) -> Result<Seq<SolarForecastPoint>, Seq<char>> {
    match doc {
        Doc::Array(entries) => points_of(entries, entries.len() as int),
        _ => Err(mismatch("a sequence"@, doc)),
    }
}

/// What a response says: an object with a field of forecasts, or a list with its
/// value.
pub open spec fn response_of(doc: Doc) -> Result<Seq<SolarForecastPoint>, Seq<char>> {
    match doc {
        Doc::Object(fields) => match field(fields, "forecasts"@) {
            Some(forecasts) => forecasts_of(forecasts),
            None => Err("missing field `forecasts`"@),
        },
        Doc::Array(values) => if values.len() == 1 {
            forecasts_of(values[0])
        } else if values.len() == 0 {
            Err("invalid length 0, expected struct SolcastResponse with 1 element"@)
        } else {
            Err("trailing characters"@)
        },
        _ => Err(mismatch("struct SolcastResponse"@, doc)),
    }
}

pub open spec fn shown_points(out: Result<Vec<SolarForecastPoint>, String>) -> Result<
    Seq<SolarForecastPoint>,
    Seq<char>,
> {
    match out {
        Ok(points) => Ok(points@),
        Err(error) => Err(error@),
    }
}

fn read_estimate(json: &Json) -> (out: Result<i64, String>)
    ensures
        match out {
            Ok(mw) => estimate_of(json.doc()) == Ok::<int, Seq<char>>(mw as int),
            Err(e) => estimate_of(json.doc()) == Err::<int, Seq<char>>(e@),
        },
{
    if let Json::Number(text) = json {
        if let Some(mw) = number::parse_scientific(text.as_str(), 6) {
            return Ok(mw);
        }
    }
    Err(say_mismatch("f64", json))
}

fn read_end(json: &Json) -> (out: Result<String, String>)
    ensures
        match out {
            Ok(end) => end_of(json.doc()) == Ok::<Seq<char>, Seq<char>>(end@),
            Err(e) => end_of(json.doc()) == Err::<Seq<char>, Seq<char>>(e@),
        },
{
    match json {
        Json::Text(end) => Ok(end.clone()),
        _ => Err(say_mismatch("a string", json)),
    }
}

/// A value that may be missing, as a mathematical value.
spec fn seen(json: Option<&Json>) -> Option<Doc> {
    match json {
        Some(json) => Some(json.doc()),
        None => None,
    }
}

fn read_values(estimate: Option<&Json>, end: Option<&Json>) -> (out: Result<
    (i64, String),
    String,
>)
    ensures
        match out {
            Ok((mw, at)) => entry_of_values(seen(estimate), seen(end)) == Ok::<
                (int, Seq<char>),
                Seq<char>,
            >((mw as int, at@)),
            Err(error) => entry_of_values(seen(estimate), seen(end)) == Err::<
                (int, Seq<char>),
                Seq<char>,
            >(error@),
        },
{
    let mw: Option<i64> = match estimate {
        Some(json) => match read_estimate(json) {
            Ok(mw) => Some(mw),
            Err(e) => return Err(e),
        },
        None => None,
    };
    let at: Option<String> = match end {
        Some(json) => match read_end(json) {
            Ok(at) => Some(at),
            Err(e) => return Err(e),
        },
        None => None,
    };
    match (mw, at) {
        (Some(mw), Some(at)) => Ok((mw, at)),
        (None, _) => Err("missing field `pv_estimate`".to_owned()),
        (_, None) => Err("missing field `period_end`".to_owned()),
    }
}

fn read_entry(json: &Json) -> (out: Result<(i64, String), String>)
    ensures
        match out {
            Ok((mw, end)) => entry_of(json.doc()) == Ok::<(int, Seq<char>), Seq<char>>(
                (mw as int, end@),
            ),
            Err(error) => entry_of(json.doc()) == Err::<(int, Seq<char>), Seq<char>>(error@),
        },
{
    proof {
        doc_is_its_parts(*json);
    }
    match json {
        Json::Object(fields) => read_values(get(fields, "pv_estimate"), get(fields, "period_end")),
        Json::Array(values) => {
            if values.len() == 2 {
                assert(docs_of(values@)[0] == values@[0].doc());
                assert(docs_of(values@)[1] == values@[1].doc());
                read_values(Some(&values[0]), Some(&values[1]))
            } else if values.len() < 2 {
                let mut e = "invalid length ".to_owned();
                text::push_decimal(&mut e, values.len() as u128);
                e.append(", expected struct SolcastEntry with 2 elements");
                Err(e)
            } else {
                Err("trailing characters".to_owned())
            }
        },
        _ => Err(say_mismatch("struct SolcastEntry", json)),
    }
}

/// The point of an entry, unless its period ends at no instant.
pub fn point(mw: i64, read: Result<i64, String>) -> (out: Option<SolarForecastPoint>)
    ensures
        out == point_of(
            mw as int,
            match read {
                Ok(ms) => Ok(ms),
                Err(error) => Err(error@),
            },
        ),
{
    match read {
        Ok(ms) => Some(
            SolarForecastPoint { at: Timestamp::from_millis(ms), estimate: SolarPower { mw } },
        ),
        Err(_) => None,
    }
}

fn read_forecasts(list: &Json) -> (out: Result<Vec<SolarForecastPoint>, String>)
    ensures
        shown_points(out) == forecasts_of(list.doc()),
{
    proof {
        doc_is_its_parts(*list);
    }
    let entries = match list {
        Json::Array(entries) => entries,
        _ => return Err(say_mismatch("a sequence", list)),
    };
    let ghost docs = docs_of(entries@);
    let mut points: Vec<SolarForecastPoint> = Vec::new();
    for i in 0..entries.len()
        invariant
            docs == docs_of(entries@),
            forecasts_of(list.doc()) == points_of(docs, docs.len() as int),
            points_of(docs, i as int) == Ok::<Seq<SolarForecastPoint>, Seq<char>>(points@),
    {
        assert(docs[i as int] == entries@[i as int].doc());
        match read_entry(&entries[i]) {
            Err(error) => {
                proof {
                    first_error(docs, i as int, docs.len() as int);
                }
                return Err(error);
            },
            Ok((mw, end)) => {
                if let Some(point) = point(mw, read_rfc3339(end.as_str())) {
                    points.push(point);
                }
            },
        }
    }
    Ok(points)
}

/// What a response that was read says.
pub fn read_response(json: &Json) -> (out: Result<Vec<SolarForecastPoint>, String>)
    ensures
        shown_points(out) == response_of(json.doc()),
{
    proof {
        doc_is_its_parts(*json);
    }
    match json {
        Json::Object(fields) => match get(fields, "forecasts") {
            Some(forecasts) => read_forecasts(forecasts),
            None => Err("missing field `forecasts`".to_owned()),
        },
        Json::Array(values) => {
            if values.len() == 1 {
                assert(docs_of(values@)[0] == values@[0].doc());
                read_forecasts(&values[0])
            } else if values.len() == 0 {
                Err("invalid length 0, expected struct SolcastResponse with 1 element".to_owned())
            } else {
                Err("trailing characters".to_owned())
            }
        },
        _ => Err(say_mismatch("struct SolcastResponse", json)),
    }
}

/// The first entry that cannot be read is the one that is complained of.
proof fn first_error(entries: Seq<Doc>, at: int, n: int)
    requires
        0 <= at < n <= entries.len(),
        points_of(entries, at) is Ok,
        entry_of(entries[at]) is Err,
    ensures
        points_of(entries, n) is Err,
        points_of(entries, n)->Err_0 == entry_of(entries[at])->Err_0,
    decreases n - at,
{
    if at < n - 1 {
        first_error(entries, at, n - 1);
    }
}

/// The points of a response's body, or what is wrong with it. An entry whose
/// period ends at no instant costs that entry alone.
pub fn parse_forecast_response(body: &str) -> (out: Result<Vec<SolarForecastPoint>, String>)
    ensures
        shown_points(out) == match json_of(body@) {
            Ok(doc) => response_of(doc),
            Err(error) => Err(error),
        },
{
    match json::parse(body) {
        Ok(json) => read_response(&json),
        Err(error) => Err(error),
    }
}

// --- laws ----------------------------------------------------------------------

/// What two series hold for a moment adds up, in either order, as long as the
/// sums stay in range.
pub proof fn sums_are_of_both(
    series: Series,
    points: Seq<SolarForecastPoint>,
    n: int,
    at: int,
)
    requires
        0 <= n <= points.len(),
        forall|i: int|
            0 <= i <= n ==> i64::MIN <= estimate_at(series, at) + #[trigger] total_at(points, i, at)
                <= i64::MAX,
    ensures
        estimate_at(summed(series, points, n), at) == estimate_at(series, at) + total_at(
            points,
            n,
            at,
        ),
        summed(series, points, n).contains_key(at) <==> series.contains_key(at) || exists|i: int|
            0 <= i < n && (#[trigger] points[i]).at.ms == at,
    decreases n,
{
    if n > 0 {
        sums_are_of_both(series, points, n - 1, at);
        assert(i64::MIN <= estimate_at(series, at) + total_at(points, n, at) <= i64::MAX);
        let p = points[n - 1];
        if p.at.ms == at {
            assert(points[n - 1].at.ms == at);
        }
    }
}

/// The sum of what the first `n` points say of a moment.
pub open spec fn total_at(points: Seq<SolarForecastPoint>, n: int, at: int) -> int
    decreases n,
{
    if n <= 0 {
        0
    } else {
        total_at(points, n - 1, at) + if points[n - 1].at.ms == at {
            points[n - 1].estimate.mw as int
        } else {
            0
        }
    }
}

/// An estimate of so many whole kilowatts is that many million milliwatts.
pub proof fn an_estimate_is_in_kilowatts(kw: int)
    requires
        -1_000_000_000_000 < kw < 1_000_000_000_000,
    ensures
        estimate_of(Doc::Number(signed(kw))) == Ok::<int, Seq<char>>(kw * 1_000_000),
{
    a_json_number_is_read_back(kw, 6);
    powers_of_ten();
}

/// An entry says its power and the end of its period, whether by name or in order.
pub proof fn an_entry_says_its_power_and_its_end(
    fields: Seq<(Seq<char>, Doc)>,
    values: Seq<Doc>,
    kw: int,
    end: Seq<char>,
)
    requires
        -1_000_000_000_000 < kw < 1_000_000_000_000,
    ensures
        field(fields, "pv_estimate"@) == Some(Doc::Number(signed(kw))) && field(
            fields,
            "period_end"@,
        ) == Some(Doc::Text(end)) ==> entry_of(Doc::Object(fields)) == Ok::<
            (int, Seq<char>),
            Seq<char>,
        >((kw * 1_000_000, end)),
        values.len() == 2 && values[0] == Doc::Number(signed(kw)) && values[1] == Doc::Text(end)
            ==> entry_of(Doc::Array(values)) == Ok::<(int, Seq<char>), Seq<char>>(
            (kw * 1_000_000, end),
        ),
{
    an_estimate_is_in_kilowatts(kw);
}

/// Each entry whose period ends at an instant becomes a point at that instant, in the
/// order of the response; one whose period does not is skipped; one that cannot be
/// read spoils the response.
pub proof fn each_entry_becomes_a_point(entries: Seq<Doc>, n: int)
    requires
        0 < n <= entries.len(),
        points_of(entries, n - 1) is Ok,
    ensures
        ({
            let before = points_of(entries, n - 1)->Ok_0;
            match entry_of(entries[n - 1]) {
                Err(e) => points_of(entries, n) == Err::<Seq<SolarForecastPoint>, Seq<char>>(e),
                Ok((mw, end)) => match rfc3339(end) {
                    Err(_) => points_of(entries, n) == Ok::<Seq<SolarForecastPoint>, Seq<char>>(
                        before,
                    ),
                    Ok(ms) => points_of(entries, n) == Ok::<Seq<SolarForecastPoint>, Seq<char>>(
                        before.push(
                            SolarForecastPoint {
                                at: Timestamp { ms },
                                estimate: SolarPower { mw: mw as i64 },
                            },
                        ),
                    ),
                },
            }
        }),
        points_of(entries, 0) == Ok::<Seq<SolarForecastPoint>, Seq<char>>(Seq::empty()),
{
}

/// A response says what its list of forecasts says, whether by name or in order, and
/// one without such a list says nothing.
pub proof fn a_response_is_its_forecasts(
    fields: Seq<(Seq<char>, Doc)>,
    values: Seq<Doc>,
    entries: Seq<Doc>,
)
    ensures
        field(fields, "forecasts"@) == Some(Doc::Array(entries)) ==> response_of(
            Doc::Object(fields),
        ) == points_of(entries, entries.len() as int),
        field(fields, "forecasts"@) is None ==> response_of(Doc::Object(fields)) is Err,
        values.len() == 1 && values[0] == Doc::Array(entries) ==> response_of(Doc::Array(values))
            == points_of(entries, entries.len() as int),
        values.len() != 1 ==> response_of(Doc::Array(values)) is Err,
{
}

/// A site is asked for under its own name and with the key.
pub proof fn a_site_is_asked_for_by_name(site: Seq<char>, key: Seq<char>)
    ensures
        site_url(site, key) == "https://api.solcast.com.au/rooftop_sites/"@ + site
            + "/forecasts?format=json&api_key="@ + key,
{
}

/// An entry that lacks a field is refused by the name of the field.
pub proof fn an_entry_that_lacks_a_field_is_refused(kw: int, end: Seq<char>)
    requires
        -1_000_000_000_000 < kw < 1_000_000_000_000,
    ensures
        entry_of_values(Some(Doc::Number(signed(kw))), None) == Err::<(int, Seq<char>), Seq<char>>(
            "missing field `period_end`"@,
        ),
        entry_of_values(None, Some(Doc::Text(end))) == Err::<(int, Seq<char>), Seq<char>>(
            "missing field `pv_estimate`"@,
        ),
        entry_of_values(None, None) == Err::<(int, Seq<char>), Seq<char>>(
            "missing field `pv_estimate`"@,
        ),
{
    an_estimate_is_in_kilowatts(kw);
}

} // verus!
