//! Days, and the time they are where the battery stands.

use chrono::{TimeZone, Timelike};

use zendure::calendar::{day_start, local_midnight, Date, Instants};
use zendure::clock::{Clock, Weekday};
use zendure::rawlog::RawLog;
use zendure::units::Timestamp;

#[test]
fn local_midnight_zeroes_the_time_in_the_configured_timezone() {
    let tz = chrono_tz::Europe::Amsterdam;
    let afternoon = tz.with_ymd_and_hms(2026, 6, 15, 14, 30, 0).unwrap();
    let now = Timestamp::from_millis(afternoon.timestamp_millis());

    let midnight = local_midnight(now, "Europe/Amsterdam");

    let local = tz.timestamp_millis_opt(midnight.as_millis()).single().unwrap();
    assert_eq!(local.date_naive(), afternoon.date_naive());
    assert_eq!((local.hour(), local.minute(), local.second()), (0, 0, 0));
}

/// 01:00 in Tokyo is still the previous day in UTC.
#[test]
fn local_midnight_can_fall_on_a_different_calendar_day_than_utc() {
    let tz = chrono_tz::Asia::Tokyo;
    let early_morning = tz.with_ymd_and_hms(2026, 1, 2, 1, 0, 0).unwrap();
    let now = Timestamp::from_millis(early_morning.timestamp_millis());
    assert_eq!(
        early_morning.with_timezone(&chrono::Utc).date_naive(),
        chrono::NaiveDate::from_ymd_opt(2026, 1, 1).unwrap(),
        "this instant must actually straddle midnight UTC"
    );

    let midnight = local_midnight(now, "Asia/Tokyo");
    let local = tz.timestamp_millis_opt(midnight.as_millis()).single().unwrap();

    assert_eq!(local.date_naive(), early_morning.date_naive());
    assert_eq!((local.hour(), local.minute()), (0, 0));
}

/// A day that a clock change starts late has no midnight: the moment itself
/// stands in. One that starts twice starts the first time.
#[test]
fn a_day_without_a_midnight_starts_now() {
    let now = Timestamp::from_millis(77);
    assert_eq!(day_start(Instants::Nowhere, now), now);
    assert_eq!(day_start(Instants::Once(5), now), Timestamp::from_millis(5));
    assert_eq!(day_start(Instants::Twice(3, 9), now), Timestamp::from_millis(3));
}

#[test]
fn a_clock_reads_the_local_time() {
    // 2026-09-13T22:30:00Z is half past midnight of the 14th in Amsterdam.
    let now = Timestamp::from_millis(1_789_338_600_000);
    let clock = Clock::at(now, "Europe/Amsterdam").unwrap();
    assert_eq!(clock.now, now);
    assert_eq!(clock.hour, 0);
    assert_eq!(clock.day_ordinal, 257);
    assert_eq!(clock.weekday, Weekday::Mon);
    let utc = Clock::at(now, "UTC").unwrap();
    assert_eq!((utc.hour, utc.day_ordinal, utc.weekday), (22, 256, Weekday::Sun));
    assert_eq!(Clock::at(now, "Mars/Olympus"), None);
}

#[test]
fn a_date_is_read_back_as_it_is_written() {
    let date = Date::parse("2026-09-13").unwrap();
    assert_eq!(date.to_string(), "2026-09-13");
    assert_eq!(date.year(), Some(2026));
    assert_eq!(date.ordinal(), Some(256));
    assert_eq!(date.weekday(), Weekday::Sun);
    assert_eq!(Date::of_year(2026, 256), Some(date));
    assert_eq!(Date::of_year(2026, 366), None);
    assert_eq!(Date::of_utc(Timestamp::from_millis(1_789_293_600_000)), Some(date));
    assert_eq!(Date::parse("2026-13-01"), None);
    assert_eq!(Date::parse("yesterday"), None);
}

// --- raw captures, one file a day ------------------------------------------

const NOON: i64 = 1_789_300_800_000;

fn captured(payload: &str) -> serde_json::Value {
    let log = RawLog::new(90);
    let entry = log.raw("shelly", payload, Timestamp::from_millis(NOON)).unwrap();
    assert_eq!(entry.file, "2026-09-13.ndjson");
    assert_eq!(entry.line.matches('\n').count(), 1, "{:?}", entry.line);
    assert!(entry.line.ends_with('\n'));
    serde_json::from_str(&entry.line).expect("each line must be valid JSON")
}

#[test]
fn valid_json_is_embedded_verbatim() {
    let captured = captured(r#"{"total_act_power":150.5,"unmodelled":"kept"}"#);
    assert_eq!(captured["kind"], "shelly");
    assert_eq!(captured["payload"]["total_act_power"], 150.5);
    assert_eq!(captured["payload"]["unmodelled"], "kept");
    assert!(captured["ts_ms"].as_i64().unwrap() > 0);
}

#[test]
fn malformed_payload_is_kept_as_a_string() {
    let captured = captured(r#"{"electricLevel": 4"#);
    assert_eq!(captured["payload"], r#"{"electricLevel": 4"#);
}

#[test]
fn payload_containing_a_newline_stays_on_one_line() {
    let captured = captured("not json\nwith a newline");
    assert_eq!(captured["payload"], "not json\nwith a newline");
}

#[test]
fn serializable_values_round_trip() {
    let entry = RawLog::new(90)
        .write_line(
            "decision",
            r#"{"outcome":"ok","command":"set_discharge(145W)"}"#,
            Timestamp::from_millis(NOON),
        )
        .unwrap();
    let parsed: serde_json::Value = serde_json::from_str(&entry.line).unwrap();
    assert_eq!(parsed["kind"], "decision");
    assert_eq!(parsed["payload"]["command"], "set_discharge(145W)");
}

#[test]
fn a_line_names_its_instant_and_kind() {
    let text = zendure::rawlog::line(Timestamp::from_millis(7), "decision", r#"{"outcome":"ok"}"#);
    let parsed: serde_json::Value = serde_json::from_str(&text).unwrap();
    assert_eq!(parsed["ts_ms"], 7);
    assert_eq!(parsed["kind"], "decision");
    assert_eq!(parsed["payload"]["outcome"], "ok");
}

/// A new day rolls over to a new file, and the file in use is kept to.
#[test]
fn a_new_day_opens_a_new_file() {
    let mut log = RawLog::new(90);
    let first = log.write_line("a", "1", Timestamp::from_millis(NOON)).unwrap();
    assert!(first.rolled);
    log.wrote(Timestamp::from_millis(NOON), true);
    let same = log.write_line("a", "1", Timestamp::from_millis(NOON + 1000)).unwrap();
    assert!(!same.rolled);
    let next = log.write_line("a", "1", Timestamp::from_millis(NOON + 86_400_000)).unwrap();
    assert!(next.rolled);
    assert_eq!(next.file, "2026-09-14.ndjson");
}

#[test]
fn startup_prunes_beyond_retention() {
    let names: Vec<String> = ["2026-08-04.ndjson", "2026-09-10.ndjson", "notes.txt"]
        .iter()
        .map(|s| s.to_string())
        .collect();
    let old = RawLog::new(30).prune(&names, Timestamp::from_millis(NOON));
    assert_eq!(old, vec!["2026-08-04.ndjson".to_string()]);
}
