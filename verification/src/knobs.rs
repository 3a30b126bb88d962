//! Asking what other tuning would have decided: knobs replaced by name.

use vstd::prelude::*;

use crate::clock::Weekday;
use crate::config::{at_most_full, is_tuning_key, tuning_key, SessionConfig};
use crate::json;
use crate::json::{json_of, mismatch, misfit, say_misfit, say_mismatch, Doc, Json};
use crate::number;
use crate::number::{
    a_json_number_is_read_back, a_signed_number_is_read_back, int_of, powers_of_ten, scientific_of,
};
use crate::setting::{
    a_weekday_is_read_by_its_short_name, count_type, fault, find_weekday, first, kept, plain, say_count_type, short_name,
    weekday_of, Reading,
};
use crate::text;
use crate::text::{lower, signed};
use crate::units::{
    saturated_i64, GridPower, PowerMargin, Soc, SolarPower,
};

verus! {

/// Names of knobs, and what each is to be.
pub type Overrides = Seq<(Seq<char>, Seq<char>)>;

pub open spec fn pairs(overrides: Seq<(String, String)>) -> Overrides {
    overrides.map_values(|o: (String, String)| (o.0@, o.1@))
}

/// Every knob, in the order of their names.
pub open spec fn known_knobs() -> Seq<char> {
    "balance_weekday, charge_margin, charge_start_threshold, cycle_warn_threshold, discharge_margin, discharge_start_threshold, idle_timeout_secs, max_soc, min_decision_interval_secs, min_idle_before_discharge_secs, min_mode_duration_secs, min_soc, mqtt_timeout_secs, solar_discharge_block_threshold"@
}

/// The first name from `from` on that is no knob's.
pub open spec fn first_unknown(overrides: Overrides, from: int) -> Option<Seq<char>>
    decreases overrides.len() - from,
{
    if from >= overrides.len() {
        None
    } else if is_tuning_key(overrides[from].0) {
        first_unknown(overrides, from + 1)
    } else {
        Some(overrides[from].0)
    }
}

/// What a knob is to be, by the first `n` overrides: the last one counts.
pub open spec fn last_value(overrides: Overrides, key: Seq<char>, n: int) -> Option<Seq<char>>
    decreases n,
{
    if n <= 0 {
        None
    } else if overrides[n - 1].0 == key {
        Some(overrides[n - 1].1)
    } else {
        last_value(overrides, key, n - 1)
    }
}

/// A value as it was typed: JSON where it is JSON, and text where it is not.
pub open spec fn typed(raw: Seq<char>) -> Doc {
    match json_of(raw) {
        Ok(doc) => doc,
        Err(_) => Doc::Text(raw),
    }
}

pub open spec fn doc_count(doc: Doc, most: int) -> Reading<int> {
    match doc {
        Doc::Number(s) => match int_of(s) {
            Some(n) => if 0 <= n <= most {
                Ok(n)
            } else {
                Err(misfit(count_type(most), doc))
            },
            None => Err(mismatch(count_type(most), doc)),
        },
        _ => Err(mismatch(count_type(most), doc)),
    }
}

pub open spec fn doc_milli(doc: Doc) -> Reading<int> {
    match doc {
        Doc::Number(s) => match scientific_of(s, 3) {
            Some(m) => Ok(saturated_i64(m)),
            None => Err(mismatch("f64"@, doc)),
        },
        _ => Err(mismatch("f64"@, doc)),
    }
}

pub open spec fn doc_day(doc: Doc) -> Reading<Option<Weekday>> {
    match doc {
        Doc::Null => Ok(None),
        Doc::Text(s) => match weekday_of(s.map_values(|c: char| lower(c))) {
            Some(day) => Ok(Some(day)),
            None => Err("short or long weekday names expected"@),
        },
        _ => Err(mismatch("Weekday"@, doc)),
    }
}

pub open spec fn count_knob(overrides: Overrides, key: Seq<char>, most: int) -> Option<
    Reading<int>,
> {
    match last_value(overrides, key, overrides.len() as int) {
        Some(raw) => Some(doc_count(typed(raw), most)),
        None => None,
    }
}

pub open spec fn milli_knob(overrides: Overrides, key: Seq<char>) -> Option<Reading<int>> {
    match last_value(overrides, key, overrides.len() as int) {
        Some(raw) => Some(doc_milli(typed(raw))),
        None => None,
    }
}

pub open spec fn day_knob(overrides: Overrides, key: Seq<char>) -> Option<
    Reading<Option<Weekday>>,
> {
    match last_value(overrides, key, overrides.len() as int) {
        Some(raw) => Some(doc_day(typed(raw))),
        None => None,
    }
}

pub open spec fn rejected(fault: Option<Seq<char>>) -> Option<Seq<char>> {
    match fault {
        Some(e) => Some("override rejected: "@ + e),
        None => None,
    }
}

/// What stops an override: a knob that there is none of, or a value that does
/// not fit its knob.
pub open spec fn override_problem(overrides: Overrides) -> Option<Seq<char>> {
    match first_unknown(overrides, 0) {
        Some(key) => Some(
            "unknown tuning knob `"@ + key + "`; known knobs: "@ + known_knobs(),
        ),
        None => knob_problem(overrides),
    }
}

/// The first value that does not fit its knob, in the order of their names.
pub open spec fn knob_problem(overrides: Overrides) -> Option<Seq<char>> {
    first(
        rejected(fault(day_knob(overrides, "balance_weekday"@))),
    first(
        rejected(fault(count_knob(overrides, "charge_margin"@, u32::MAX as int))),
    first(
        rejected(fault(milli_knob(overrides, "charge_start_threshold"@))),
    first(
        rejected(fault(count_knob(overrides, "cycle_warn_threshold"@, u32::MAX as int))),
    first(
        rejected(fault(count_knob(overrides, "discharge_margin"@, u32::MAX as int))),
    first(
        rejected(fault(milli_knob(overrides, "discharge_start_threshold"@))),
    first(
        rejected(fault(count_knob(overrides, "idle_timeout_secs"@, u64::MAX as int))),
    first(
        rejected(fault(count_knob(overrides, "max_soc"@, u32::MAX as int))),
    first(
        rejected(fault(count_knob(overrides, "min_decision_interval_secs"@, u64::MAX as int))),
    first(
        rejected(fault(count_knob(overrides, "min_idle_before_discharge_secs"@, u64::MAX as int))),
    first(
        rejected(fault(count_knob(overrides, "min_mode_duration_secs"@, u64::MAX as int))),
    first(
        rejected(fault(count_knob(overrides, "min_soc"@, u32::MAX as int))),
    first(
        rejected(fault(count_knob(overrides, "mqtt_timeout_secs"@, u64::MAX as int))),
    rejected(fault(milli_knob(overrides, "solar_discharge_block_threshold"@))),
    )))))))))))))
}

/// `config` is `base` with the overridden knobs replaced, and no others.
pub open spec fn overridden(
    base: SessionConfig,
    overrides: Overrides,
    config: SessionConfig,
) -> bool {
    &&& config.charge_margin.watts == kept(count_knob(overrides, "charge_margin"@, u32::MAX as int), base.charge_margin.watts as int)
    &&& config.discharge_margin.watts == kept(count_knob(overrides, "discharge_margin"@, u32::MAX as int), base.discharge_margin.watts as int)
    &&& config.charge_start_threshold.mw == kept(milli_knob(overrides, "charge_start_threshold"@), base.charge_start_threshold.mw as int)
    &&& config.discharge_start_threshold.mw == kept(milli_knob(overrides, "discharge_start_threshold"@), base.discharge_start_threshold.mw as int)
    &&& config.min_mode_duration_secs == kept(count_knob(overrides, "min_mode_duration_secs"@, u64::MAX as int), base.min_mode_duration_secs as int)
    &&& config.min_decision_interval_secs == kept(count_knob(overrides, "min_decision_interval_secs"@, u64::MAX as int), base.min_decision_interval_secs as int)
    &&& config.idle_timeout_secs == kept(count_knob(overrides, "idle_timeout_secs"@, u64::MAX as int), base.idle_timeout_secs as int)
    &&& config.min_idle_before_discharge_secs == kept(count_knob(overrides, "min_idle_before_discharge_secs"@, u64::MAX as int), base.min_idle_before_discharge_secs as int)
    &&& config.cycle_warn_threshold == kept(count_knob(overrides, "cycle_warn_threshold"@, u32::MAX as int), base.cycle_warn_threshold as int)
    &&& match count_knob(overrides, "min_soc"@, u32::MAX as int) {
        Some(Ok(percent)) => config.min_soc@ == at_most_full(percent),
        _ => config.min_soc == base.min_soc,
    }
    &&& match count_knob(overrides, "max_soc"@, u32::MAX as int) {
        Some(Ok(percent)) => config.max_soc@ == at_most_full(percent),
        _ => config.max_soc == base.max_soc,
    }
    &&& config.balance_weekday == kept(day_knob(overrides, "balance_weekday"@), base.balance_weekday)
    &&& config.solar_discharge_block_threshold.mw == kept(milli_knob(overrides, "solar_discharge_block_threshold"@), base.solar_discharge_block_threshold.mw as int)
    &&& config.mqtt_timeout_secs == kept(count_knob(overrides, "mqtt_timeout_secs"@, u64::MAX as int), base.mqtt_timeout_secs as int)
}

fn say_rejected(e: &str) -> (out: String)
    ensures
        Some(out@) == rejected(Some(e@)),
{
    let mut out = "override rejected: ".to_owned();
    out.append(e);
    out
}

fn find_unknown(overrides: &[(String, String)]) -> (out: Option<String>)
    ensures
        match out {
            Some(e) => override_problem(pairs(overrides@)) == Some(e@) && first_unknown(
                pairs(overrides@),
                0,
            ) is Some,
            None => first_unknown(pairs(overrides@), 0) is None,
        },
{
    let ghost all = pairs(overrides@);
    let mut i: usize = 0;
    while i < overrides.len()
        invariant
            i <= overrides.len(),
            all == pairs(overrides@),
            first_unknown(all, 0) == first_unknown(all, i as int),
        decreases overrides.len() - i,
    {
        assert(all[i as int].0 == overrides@[i as int].0@);
        if !tuning_key(overrides[i].0.as_str()) {
            let mut e = "unknown tuning knob `".to_owned();
            e.append(overrides[i].0.as_str());
            e.append("`; known knobs: ");
            e.append(
                "balance_weekday, charge_margin, charge_start_threshold, cycle_warn_threshold, discharge_margin, discharge_start_threshold, idle_timeout_secs, max_soc, min_decision_interval_secs, min_idle_before_discharge_secs, min_mode_duration_secs, min_soc, mqtt_timeout_secs, solar_discharge_block_threshold",
            );
            return Some(e);
        }
        i += 1;
    }
    None
}

/// What a knob is to be, where it is overridden.
fn value_for(overrides: &[(String, String)], key: &str) -> (out: Option<Json>)
    ensures
        match out {
            Some(json) => last_value(
                pairs(overrides@),
                key@,
                overrides@.len() as int,
            ) matches Some(raw) && json.doc() == typed(raw),
            None => last_value(pairs(overrides@), key@, overrides@.len() as int) is None,
        },
{
    let ghost all = pairs(overrides@);
    let mut n: usize = overrides.len();
    while n > 0
        invariant
            n <= overrides.len(),
            all == pairs(overrides@),
            last_value(all, key@, overrides@.len() as int) == last_value(all, key@, n as int),
        decreases n,
    {
        assert(all[n - 1] == (overrides@[n - 1].0@, overrides@[n - 1].1@));
        if text::same(overrides[n - 1].0.as_str(), key) {
            let raw = &overrides[n - 1].1;
            return match json::parse(raw.as_str()) {
                Ok(json) => Some(json),
                Err(_) => Some(Json::Text(raw.clone())),
            };
        }
        n -= 1;
    }
    None
}

fn read_count(overrides: &[(String, String)], key: &str, most: u64) -> (out: Option<
    Result<u64, String>,
>)
    ensures
        match out {
            Some(Ok(n)) => count_knob(pairs(overrides@), key@, most as int) == Some(
                Ok::<int, Seq<char>>(n as int),
            ) && n <= most,
            Some(Err(e)) => count_knob(pairs(overrides@), key@, most as int) == Some(
                Err::<int, Seq<char>>(e@),
            ),
            None => count_knob(pairs(overrides@), key@, most as int) is None,
        },
{
    assert(pairs(overrides@).len() == overrides@.len());
    let json = match value_for(overrides, key) {
        Some(json) => json,
        None => {
            return None;
        },
    };
    if let Json::Number(s) = &json {
        if let Some(n) = number::parse_count(s.as_str()) {
            if n <= most {
                return Some(Ok(n));
            }
        }
        if number::is_int(s.as_str()) {
            return Some(Err(say_misfit(say_count_type(most), &json)));
        }
    }
    Some(Err(say_mismatch(say_count_type(most), &json)))
}

fn read_milli(overrides: &[(String, String)], key: &str) -> (out: Option<Result<i64, String>>)
    ensures
        match out {
            Some(Ok(n)) => milli_knob(pairs(overrides@), key@) == Some(
                Ok::<int, Seq<char>>(n as int),
            ),
            Some(Err(e)) => milli_knob(pairs(overrides@), key@) == Some(Err::<int, Seq<char>>(e@)),
            None => milli_knob(pairs(overrides@), key@) is None,
        },
{
    assert(pairs(overrides@).len() == overrides@.len());
    let json = match value_for(overrides, key) {
        Some(json) => json,
        None => {
            return None;
        },
    };
    if let Json::Number(s) = &json {
        if let Some(m) = number::parse_scientific(s.as_str(), 3) {
            return Some(Ok(m));
        }
    }
    Some(Err(say_mismatch("f64", &json)))
}

fn read_day(overrides: &[(String, String)], key: &str) -> (out: Option<
    Result<Option<Weekday>, String>,
>)
    ensures
        match out {
            Some(r) => day_knob(pairs(overrides@), key@) == Some(plain(r)),
            None => day_knob(pairs(overrides@), key@) is None,
        },
{
    assert(pairs(overrides@).len() == overrides@.len());
    let json = match value_for(overrides, key) {
        Some(json) => json,
        None => {
            return None;
        },
    };
    match &json {
        Json::Null => {
            return Some(Ok(None));
        },
        Json::Text(s) => {
            let name = text::lowercase(s.as_str());
            if let Some(day) = find_weekday(name.as_str()) {
                return Some(Ok(Some(day)));
            }
            return Some(Err("short or long weekday names expected".to_owned()));
        },
        _ => {},
    }
    Some(Err(say_mismatch("Weekday", &json)))
}

/// What was read for a knob, or what it was.
fn chosen<T>(reading: Option<Result<T, String>>, default: T) -> (out: Result<T, String>)
    ensures
        match reading {
            Some(Ok(v)) => out == Ok::<T, String>(v),
            Some(Err(r)) => out matches Err(e) && Some(e@) == rejected(Some(r@)),
            None => out == Ok::<T, String>(default),
        },
{
    match reading {
        Some(Ok(v)) => Ok(v),
        Some(Err(e)) => Err(say_rejected(e.as_str())),
        None => Ok(default),
    }
}

fn chosen_soc(reading: Option<Result<u64, String>>, default: Soc) -> (out: Result<
    Soc,
    String,
>)
    requires
        reading matches Some(Ok(n)) ==> n <= u32::MAX,
    ensures
        match reading {
            Some(Ok(n)) => out matches Ok(soc) && soc@ == at_most_full(n as int),
            Some(Err(r)) => out matches Err(e) && Some(e@) == rejected(Some(r@)),
            None => out == Ok::<Soc, String>(default),
        },
{
    match reading {
        Some(Ok(n)) => Ok(Soc::new(n as u32)),
        Some(Err(e)) => Err(say_rejected(e.as_str())),
        None => Ok(default),
    }
}

/// Replaces tuning knobs by name. A name that is no knob's is refused: a typo
/// that silently changed nothing would answer the wrong question.
pub fn apply_overrides(config: &SessionConfig, overrides: &[(String, String)]) -> (out: Result<
    SessionConfig,
    String,
>)
    ensures
        match out {
            Ok(changed) => override_problem(pairs(overrides@)) is None && overridden(
                *config,
                pairs(overrides@),
                changed,
            ),
            Err(e) => override_problem(pairs(overrides@)) == Some(e@),
        },
{
    if let Some(e) = find_unknown(overrides) {
        return Err(e);
    }

    let balance_weekday = match chosen(read_day(overrides, "balance_weekday"), config.balance_weekday) {
        Ok(v) => v,
        Err(e) => {
            return Err(e);
        },
    };
    let charge_margin = match chosen(read_count(overrides, "charge_margin", 0xffff_ffff), config.charge_margin.watts as u64) {
        Ok(v) => v,
        Err(e) => {
            return Err(e);
        },
    };
    let charge_start_threshold = match chosen(read_milli(overrides, "charge_start_threshold"), config.charge_start_threshold.mw) {
        Ok(v) => v,
        Err(e) => {
            return Err(e);
        },
    };
    let cycle_warn_threshold = match chosen(read_count(overrides, "cycle_warn_threshold", 0xffff_ffff), config.cycle_warn_threshold as u64) {
        Ok(v) => v,
        Err(e) => {
            return Err(e);
        },
    };
    let discharge_margin = match chosen(read_count(overrides, "discharge_margin", 0xffff_ffff), config.discharge_margin.watts as u64) {
        Ok(v) => v,
        Err(e) => {
            return Err(e);
        },
    };
    let discharge_start_threshold = match chosen(read_milli(overrides, "discharge_start_threshold"), config.discharge_start_threshold.mw) {
        Ok(v) => v,
        Err(e) => {
            return Err(e);
        },
    };
    let idle_timeout_secs = match chosen(read_count(overrides, "idle_timeout_secs", 0xffff_ffff_ffff_ffff), config.idle_timeout_secs) {
        Ok(v) => v,
        Err(e) => {
            return Err(e);
        },
    };
    let max_soc = match chosen_soc(read_count(overrides, "max_soc", 0xffff_ffff), config.max_soc) {
        Ok(v) => v,
        Err(e) => {
            return Err(e);
        },
    };
    let min_decision_interval_secs = match chosen(read_count(overrides, "min_decision_interval_secs", 0xffff_ffff_ffff_ffff), config.min_decision_interval_secs) {
        Ok(v) => v,
        Err(e) => {
            return Err(e);
        },
    };
    let min_idle_before_discharge_secs = match chosen(read_count(overrides, "min_idle_before_discharge_secs", 0xffff_ffff_ffff_ffff), config.min_idle_before_discharge_secs) {
        Ok(v) => v,
        Err(e) => {
            return Err(e);
        },
    };
    let min_mode_duration_secs = match chosen(read_count(overrides, "min_mode_duration_secs", 0xffff_ffff_ffff_ffff), config.min_mode_duration_secs) {
        Ok(v) => v,
        Err(e) => {
            return Err(e);
        },
    };
    let min_soc = match chosen_soc(read_count(overrides, "min_soc", 0xffff_ffff), config.min_soc) {
        Ok(v) => v,
        Err(e) => {
            return Err(e);
        },
    };
    let mqtt_timeout_secs = match chosen(read_count(overrides, "mqtt_timeout_secs", 0xffff_ffff_ffff_ffff), config.mqtt_timeout_secs) {
        Ok(v) => v,
        Err(e) => {
            return Err(e);
        },
    };
    let solar_discharge_block_threshold = match chosen(read_milli(overrides, "solar_discharge_block_threshold"), config.solar_discharge_block_threshold.mw) {
        Ok(v) => v,
        Err(e) => {
            return Err(e);
        },
    };
    Ok(
    SessionConfig {
        charge_margin: PowerMargin { watts: charge_margin as u32 },
        discharge_margin: PowerMargin { watts: discharge_margin as u32 },
        charge_start_threshold: GridPower { mw: charge_start_threshold },
        discharge_start_threshold: GridPower { mw: discharge_start_threshold },
        min_mode_duration_secs,
        min_decision_interval_secs,
        idle_timeout_secs,
        min_idle_before_discharge_secs,
        cycle_warn_threshold: cycle_warn_threshold as u32,
        min_soc,
        max_soc,
        balance_weekday,
        solar_discharge_block_threshold: SolarPower { mw: solar_discharge_block_threshold },
        mqtt_timeout_secs,
    })
}

// --- laws ----------------------------------------------------------------------

/// Without overrides, the tuning stays what it was.
pub proof fn no_override_changes_nothing(base: SessionConfig, config: SessionConfig)
    requires
        overridden(base, Seq::empty(), config),
    ensures
        config == base,
        override_problem(Seq::empty()) is None,
{
}

/// One override changes one knob: the floor of the state of charge, say, and
/// none of the rest.
pub proof fn one_override_changes_one_knob(
    base: SessionConfig,
    key: Seq<char>,
    raw: Seq<char>,
    config: SessionConfig,
)
    requires
        overridden(base, seq![(key, raw)], config),
    ensures
        key != "min_soc"@ ==> config.min_soc == base.min_soc,
        key != "max_soc"@ ==> config.max_soc == base.max_soc,
        key != "charge_margin"@ ==> config.charge_margin == base.charge_margin,
        key != "discharge_margin"@ ==> config.discharge_margin == base.discharge_margin,
        key != "charge_start_threshold"@ ==> config.charge_start_threshold
            == base.charge_start_threshold,
        key != "discharge_start_threshold"@ ==> config.discharge_start_threshold
            == base.discharge_start_threshold,
        key != "min_mode_duration_secs"@ ==> config.min_mode_duration_secs
            == base.min_mode_duration_secs,
        key != "min_decision_interval_secs"@ ==> config.min_decision_interval_secs
            == base.min_decision_interval_secs,
        key != "idle_timeout_secs"@ ==> config.idle_timeout_secs == base.idle_timeout_secs,
        key != "min_idle_before_discharge_secs"@ ==> config.min_idle_before_discharge_secs
            == base.min_idle_before_discharge_secs,
        key != "cycle_warn_threshold"@ ==> config.cycle_warn_threshold
            == base.cycle_warn_threshold,
        key != "balance_weekday"@ ==> config.balance_weekday == base.balance_weekday,
        key != "solar_discharge_block_threshold"@ ==> config.solar_discharge_block_threshold
            == base.solar_discharge_block_threshold,
        key != "mqtt_timeout_secs"@ ==> config.mqtt_timeout_secs == base.mqtt_timeout_secs,
{
    reveal_with_fuel(last_value, 2);
}

/// The last override of a knob is the one that counts.
proof fn the_last_one_counts(overrides: Overrides, key: Seq<char>, i: int, n: int)
    requires
        0 <= i < n <= overrides.len(),
        overrides[i].0 == key,
        forall|j: int| i < j < n ==> (#[trigger] overrides[j]).0 != key,
    ensures
        last_value(overrides, key, n) == Some(overrides[i].1),
    decreases n,
{
    if i < n - 1 {
        assert(overrides[n - 1].0 != key);
        the_last_one_counts(overrides, key, i, n - 1);
    }
}

/// What no override names has no value.
proof fn an_unnamed_knob_has_no_value(overrides: Overrides, key: Seq<char>, n: int)
    requires
        0 <= n <= overrides.len(),
        forall|j: int| 0 <= j < n ==> (#[trigger] overrides[j]).0 != key,
    ensures
        last_value(overrides, key, n) is None,
    decreases n,
{
    if n > 0 {
        assert(overrides[n - 1].0 != key);
        an_unnamed_knob_has_no_value(overrides, key, n - 1);
    }
}

/// A knob that is overridden with a whole number has that number: watts and seconds
/// as they are, a state of charge up to full, and a threshold in its thousandths.
pub proof fn an_override_sets_its_knob(
    base: SessionConfig,
    overrides: Overrides,
    config: SessionConfig,
    i: int,
    n: int,
)
    requires
        overridden(base, overrides, config),
        override_problem(overrides) is None,
        0 <= i < overrides.len(),
        forall|j: int| i < j < overrides.len() ==> (#[trigger] overrides[j]).0 != overrides[i].0,
        json_of(overrides[i].1) == Ok::<Doc, Seq<char>>(Doc::Number(signed(n))),
        -1_000_000_000_000_000 < n < 1_000_000_000_000_000,
    ensures
        ({
            let key = overrides[i].0;
            &&& key == "charge_margin"@ ==> config.charge_margin.watts == n
            &&& key == "discharge_margin"@ ==> config.discharge_margin.watts == n
            &&& key == "min_mode_duration_secs"@ ==> config.min_mode_duration_secs == n
            &&& key == "min_decision_interval_secs"@ ==> config.min_decision_interval_secs == n
            &&& key == "idle_timeout_secs"@ ==> config.idle_timeout_secs == n
            &&& key == "min_idle_before_discharge_secs"@ ==> config.min_idle_before_discharge_secs == n
            &&& key == "cycle_warn_threshold"@ ==> config.cycle_warn_threshold == n
            &&& key == "mqtt_timeout_secs"@ ==> config.mqtt_timeout_secs == n
            &&& key == "min_soc"@ ==> config.min_soc@ == (if n > 100 { 100 } else { n })
            &&& key == "max_soc"@ ==> config.max_soc@ == (if n > 100 { 100 } else { n })
            &&& key == "charge_start_threshold"@ ==> config.charge_start_threshold.mw == n * 1000
            &&& key == "discharge_start_threshold"@ ==> config.discharge_start_threshold.mw == n * 1000
            &&& key == "solar_discharge_block_threshold"@ ==> config.solar_discharge_block_threshold.mw == n * 1000
        }),
{
    let key = overrides[i].0;
    the_last_one_counts(overrides, key, i, overrides.len() as int);
    a_signed_number_is_read_back(n);
    a_json_number_is_read_back(n, 3);
    powers_of_ten();
}

/// A knob that is overridden with a weekday has it, and with `null` has none.
pub proof fn an_override_sets_the_weekday(
    base: SessionConfig,
    overrides: Overrides,
    config: SessionConfig,
    i: int,
    day: Weekday,
)
    requires
        overridden(base, overrides, config),
        override_problem(overrides) is None,
        0 <= i < overrides.len(),
        overrides[i].0 == "balance_weekday"@,
        forall|j: int| i < j < overrides.len() ==> (#[trigger] overrides[j]).0 != overrides[i].0,
    ensures
        json_of(overrides[i].1) == Ok::<Doc, Seq<char>>(Doc::Null) ==> config.balance_weekday
            is None,
        (json_of(overrides[i].1) is Err && overrides[i].1 == short_name(day)) || json_of(
            overrides[i].1,
        ) == Ok::<Doc, Seq<char>>(Doc::Text(short_name(day))) ==> config.balance_weekday == Some(
            day,
        ),
{
    the_last_one_counts(overrides, overrides[i].0, i, overrides.len() as int);
    a_weekday_is_read_by_its_short_name(day);
}

/// A knob that no override names stays what it was.
pub proof fn an_unnamed_knob_stays(
    base: SessionConfig,
    overrides: Overrides,
    config: SessionConfig,
    key: Seq<char>,
)
    requires
        overridden(base, overrides, config),
        forall|j: int| 0 <= j < overrides.len() ==> (#[trigger] overrides[j]).0 != key,
    ensures
        key == "charge_margin"@ ==> config.charge_margin == base.charge_margin,
        key == "discharge_margin"@ ==> config.discharge_margin == base.discharge_margin,
        key == "min_mode_duration_secs"@ ==> config.min_mode_duration_secs == base.min_mode_duration_secs,
        key == "min_decision_interval_secs"@ ==> config.min_decision_interval_secs == base.min_decision_interval_secs,
        key == "idle_timeout_secs"@ ==> config.idle_timeout_secs == base.idle_timeout_secs,
        key == "min_idle_before_discharge_secs"@ ==> config.min_idle_before_discharge_secs == base.min_idle_before_discharge_secs,
        key == "cycle_warn_threshold"@ ==> config.cycle_warn_threshold == base.cycle_warn_threshold,
        key == "mqtt_timeout_secs"@ ==> config.mqtt_timeout_secs == base.mqtt_timeout_secs,
        key == "min_soc"@ ==> config.min_soc == base.min_soc,
        key == "max_soc"@ ==> config.max_soc == base.max_soc,
        key == "charge_start_threshold"@ ==> config.charge_start_threshold == base.charge_start_threshold,
        key == "discharge_start_threshold"@ ==> config.discharge_start_threshold == base.discharge_start_threshold,
        key == "solar_discharge_block_threshold"@ ==> config.solar_discharge_block_threshold == base.solar_discharge_block_threshold,
        key == "balance_weekday"@ ==> config.balance_weekday == base.balance_weekday,
{
    an_unnamed_knob_has_no_value(overrides, key, overrides.len() as int);
}

/// A name that is no knob's is refused, wherever it stands, and a number that a
/// knob cannot hold is too.
pub proof fn an_override_that_does_not_fit_is_refused(
    overrides: Overrides,
    i: int,
    n: int,
)
    requires
        0 <= i < overrides.len(),
        forall|j: int| i < j < overrides.len() ==> (#[trigger] overrides[j]).0 != overrides[i].0,
    ensures
        ({
            let key = overrides[i].0;
            &&& key != "balance_weekday"@ && key != "charge_margin"@ && key != "charge_start_threshold"@ && key != "cycle_warn_threshold"@ && key != "discharge_margin"@ && key != "discharge_start_threshold"@ && key != "idle_timeout_secs"@ && key != "max_soc"@ && key != "min_decision_interval_secs"@ && key != "min_idle_before_discharge_secs"@ && key != "min_mode_duration_secs"@ && key != "min_soc"@ && key != "mqtt_timeout_secs"@ && key != "solar_discharge_block_threshold"@ ==> override_problem(overrides) is Some
            &&& json_of(overrides[i].1) == Ok::<Doc, Seq<char>>(Doc::Number(signed(n))) ==> {
                &&& key == "charge_margin"@ && (n < 0 || n > u32::MAX) ==> override_problem(overrides) is Some
                &&& key == "discharge_margin"@ && (n < 0 || n > u32::MAX) ==> override_problem(overrides) is Some
                &&& key == "min_mode_duration_secs"@ && (n < 0 || n > u64::MAX) ==> override_problem(overrides) is Some
                &&& key == "min_decision_interval_secs"@ && (n < 0 || n > u64::MAX) ==> override_problem(overrides) is Some
                &&& key == "idle_timeout_secs"@ && (n < 0 || n > u64::MAX) ==> override_problem(overrides) is Some
                &&& key == "min_idle_before_discharge_secs"@ && (n < 0 || n > u64::MAX) ==> override_problem(overrides) is Some
                &&& key == "cycle_warn_threshold"@ && (n < 0 || n > u32::MAX) ==> override_problem(overrides) is Some
                &&& key == "mqtt_timeout_secs"@ && (n < 0 || n > u64::MAX) ==> override_problem(overrides) is Some
                &&& key == "min_soc"@ && (n < 0 || n > u32::MAX) ==> override_problem(overrides) is Some
                &&& key == "max_soc"@ && (n < 0 || n > u32::MAX) ==> override_problem(overrides) is Some
                &&& key == "balance_weekday"@ ==> override_problem(overrides) is Some
            }
            &&& json_of(overrides[i].1) matches Ok(Doc::Boolean(_)) ==> override_problem(
                overrides,
            ) is Some
            &&& json_of(overrides[i].1) is Err && key != "balance_weekday"@ ==> override_problem(
                overrides,
            ) is Some
        }),
{
    let key = overrides[i].0;
    the_last_one_counts(overrides, key, i, overrides.len() as int);
    a_signed_number_is_read_back(n);
    if !is_tuning_key(key) {
        an_unknown_name_is_found(overrides, i, 0);
    }
}

proof fn an_unknown_name_is_found(overrides: Overrides, i: int, from: int)
    requires
        0 <= from <= i < overrides.len(),
        !is_tuning_key(overrides[i].0),
    ensures
        first_unknown(overrides, from) is Some,
    decreases i - from,
{
    if from < i && is_tuning_key(overrides[from].0) {
        an_unknown_name_is_found(overrides, i, from + 1);
    }
}

/// A value that counts is that of one of the overrides.
proof fn what_counts_was_given(overrides: Overrides, key: Seq<char>, n: int)
    requires
        0 <= n <= overrides.len(),
    ensures
        last_value(overrides, key, n) matches Some(raw) ==> exists|k: int|
            0 <= k < n && (#[trigger] overrides[k]) == (key, raw),
    decreases n,
{
    if n > 0 {
        what_counts_was_given(overrides, key, n - 1);
        if overrides[n - 1].0 == key {
            assert(overrides[n - 1] == (key, overrides[n - 1].1));
        } else if let Some(raw) = last_value(overrides, key, n - 1) {
            let k = choose|k: int| 0 <= k < n - 1 && (#[trigger] overrides[k]) == (key, raw);
            assert(overrides[k] == (key, raw));
        }
    }
}

proof fn every_name_is_known(overrides: Overrides, from: int)
    requires
        0 <= from <= overrides.len(),
        forall|i: int| 0 <= i < overrides.len() ==> is_tuning_key((#[trigger] overrides[i]).0),
    ensures
        first_unknown(overrides, from) is None,
    decreases overrides.len() - from,
{
    if from < overrides.len() {
        assert(is_tuning_key(overrides[from].0));
        every_name_is_known(overrides, from + 1);
    }
}

/// A whole number that counts for a knob is no fault of it.
proof fn a_whole_number_is_no_fault(overrides: Overrides, ns: Seq<int>, key: Seq<char>, most: int)
    requires
        ns.len() == overrides.len(),
        forall|i: int|
            0 <= i < overrides.len() ==> json_of((#[trigger] overrides[i]).1) == Ok::<
                Doc,
                Seq<char>,
            >(Doc::Number(signed(ns[i]))) && 0 <= ns[i] <= most && ns[i] < 1_000_000_000_000_000,
    ensures
        fault(count_knob(overrides, key, most)) is None,
        fault(milli_knob(overrides, key)) is None,
{
    what_counts_was_given(overrides, key, overrides.len() as int);
    if let Some(raw) = last_value(overrides, key, overrides.len() as int) {
        let k = choose|k: int| 0 <= k < overrides.len() && (#[trigger] overrides[k]) == (key, raw);
        a_signed_number_is_read_back(ns[k]);
        a_json_number_is_read_back(ns[k], 3);
        powers_of_ten();
    }
}

/// Overrides of known knobs with whole numbers that fit are accepted, however many there
/// are.
pub proof fn overrides_that_fit_are_accepted(overrides: Overrides, ns: Seq<int>)
    requires
        ns.len() == overrides.len(),
        forall|i: int|
            0 <= i < overrides.len() ==> is_tuning_key((#[trigger] overrides[i]).0)
                && overrides[i].0 != "balance_weekday"@ && json_of(overrides[i].1) == Ok::<
                Doc,
                Seq<char>,
            >(Doc::Number(signed(ns[i]))) && 0 <= ns[i] <= 0xffff_ffff,
    ensures
        override_problem(overrides) is None,
{
    every_name_is_known(overrides, 0);
    a_whole_number_is_no_fault(overrides, ns, "charge_margin"@, 0xffff_ffff);
    a_whole_number_is_no_fault(overrides, ns, "cycle_warn_threshold"@, 0xffff_ffff);
    a_whole_number_is_no_fault(overrides, ns, "discharge_margin"@, 0xffff_ffff);
    a_whole_number_is_no_fault(overrides, ns, "max_soc"@, 0xffff_ffff);
    a_whole_number_is_no_fault(overrides, ns, "min_soc"@, 0xffff_ffff);
    a_whole_number_is_no_fault(overrides, ns, "charge_start_threshold"@, 0xffff_ffff);
    a_whole_number_is_no_fault(overrides, ns, "discharge_start_threshold"@, 0xffff_ffff);
    a_whole_number_is_no_fault(overrides, ns, "solar_discharge_block_threshold"@, 0xffff_ffff);
    a_whole_number_is_no_fault(overrides, ns, "idle_timeout_secs"@, 0xffff_ffff_ffff_ffff);
    a_whole_number_is_no_fault(overrides, ns, "min_decision_interval_secs"@, 0xffff_ffff_ffff_ffff);
    a_whole_number_is_no_fault(overrides, ns, "min_idle_before_discharge_secs"@, 0xffff_ffff_ffff_ffff);
    a_whole_number_is_no_fault(overrides, ns, "min_mode_duration_secs"@, 0xffff_ffff_ffff_ffff);
    a_whole_number_is_no_fault(overrides, ns, "mqtt_timeout_secs"@, 0xffff_ffff_ffff_ffff);
    what_counts_was_given(overrides, "balance_weekday"@, overrides.len() as int);
}

/// Seconds may be as many as can be counted.
pub proof fn seconds_are_accepted(key: Seq<char>, raw: Seq<char>, n: int)
    requires
        seq![
            "idle_timeout_secs"@,
            "min_decision_interval_secs"@,
            "min_idle_before_discharge_secs"@,
            "min_mode_duration_secs"@,
            "mqtt_timeout_secs"@,
        ].contains(key),
        json_of(raw) == Ok::<Doc, Seq<char>>(Doc::Number(signed(n))),
        0 <= n <= 0xffff_ffff_ffff_ffff,
    ensures
        override_problem(seq![(key, raw)]) is None,
{
    reveal_strlit("charge_margin");
    reveal_strlit("cycle_warn_threshold");
    reveal_strlit("discharge_margin");
    reveal_strlit("max_soc");
    reveal_strlit("min_soc");
    reveal_strlit("idle_timeout_secs");
    reveal_strlit("min_decision_interval_secs");
    reveal_strlit("min_idle_before_discharge_secs");
    reveal_strlit("min_mode_duration_secs");
    reveal_strlit("mqtt_timeout_secs");
    reveal_strlit("charge_start_threshold");
    reveal_strlit("discharge_start_threshold");
    reveal_strlit("solar_discharge_block_threshold");
    reveal_strlit("balance_weekday");
    assert("charge_margin"@.last() == 'n');
    assert("discharge_margin"@.last() == 'n');
    assert("cycle_warn_threshold"@.last() == 'd');
    assert("max_soc"@.last() == 'c');
    assert("min_soc"@.last() == 'c');
    assert("charge_start_threshold"@.last() == 'd');
    assert("discharge_start_threshold"@.last() == 'd');
    assert("solar_discharge_block_threshold"@.last() == 'd');
    assert("balance_weekday"@.last() == 'y');
    assert("idle_timeout_secs"@.last() == 's');
    assert("min_decision_interval_secs"@.last() == 's');
    assert("min_idle_before_discharge_secs"@.last() == 's');
    assert("min_mode_duration_secs"@.last() == 's');
    assert("mqtt_timeout_secs"@.last() == 's');
    a_signed_number_is_read_back(n);
    reveal_with_fuel(last_value, 2);
    reveal_with_fuel(first_unknown, 2);
}

/// A refusal says which knob is not known and which are, or what is wrong with a value.
pub proof fn a_refusal_says_what_is_wrong(overrides: Overrides, i: int, e: Seq<char>)
    requires
        0 <= i < overrides.len(),
        forall|k: int| 0 <= k < i ==> is_tuning_key((#[trigger] overrides[k]).0),
    ensures
        !is_tuning_key(overrides[i].0) ==> override_problem(overrides) == Some(
            "unknown tuning knob `"@ + overrides[i].0 + "`; known knobs: "@
                + "balance_weekday, charge_margin, charge_start_threshold, cycle_warn_threshold, discharge_margin, discharge_start_threshold, idle_timeout_secs, max_soc, min_decision_interval_secs, min_idle_before_discharge_secs, min_mode_duration_secs, min_soc, mqtt_timeout_secs, solar_discharge_block_threshold"@,
        ),
        rejected(Some(e)) == Some("override rejected: "@ + e),
        rejected(None) is None,
{
    if !is_tuning_key(overrides[i].0) {
        the_first_stranger_is_named(overrides, 0, i);
    }
}

proof fn the_first_stranger_is_named(overrides: Overrides, from: int, i: int)
    requires
        0 <= from <= i < overrides.len(),
        forall|k: int| 0 <= k < i ==> is_tuning_key((#[trigger] overrides[k]).0),
        !is_tuning_key(overrides[i].0),
    ensures
        first_unknown(overrides, from) == Some(overrides[i].0),
    decreases i - from,
{
    if from < i {
        assert(is_tuning_key(overrides[from].0));
        the_first_stranger_is_named(overrides, from + 1, i);
    }
}

} // verus!
