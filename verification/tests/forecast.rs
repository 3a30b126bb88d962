//! Solar forecasts: when one is fetched, and what is kept of it.

use chrono::TimeZone;

use zendure::calendar::Date;
use zendure::config::PredictionConfig;
use zendure::prediction::simulated::{clear_sky_curve, PEAK};
use zendure::prediction::solcast::{combine_series, parse_forecast_response, SolcastForecaster};
use zendure::prediction::{
    default_poll_times, from_config, ForecastError, ForecastTracker, Forecaster, LocalNow,
    PersistedForecastState, TimeOfDay,
};
use zendure::units::{SolarForecastPoint, SolarPower, Timestamp};

fn time(hour: u32, minute: u32) -> TimeOfDay {
    TimeOfDay::new(hour, minute).unwrap()
}

fn at(date: &str, hour: u32, minute: u32) -> LocalNow {
    LocalNow { date: Date::parse(date).unwrap(), time: time(hour, minute) }
}

fn tracker() -> ForecastTracker {
    ForecastTracker::new(default_poll_times().to_vec(), "UTC".to_string())
}

fn point(ms: i64, watts: i64) -> SolarForecastPoint {
    SolarForecastPoint {
        at: Timestamp::from_millis(ms),
        estimate: SolarPower { mw: watts * 1000 },
    }
}

// --- when -------------------------------------------------------------------

#[test]
fn nothing_is_due_before_the_first_anchor() {
    assert_eq!(tracker().next_due(&at("2026-01-01", 5, 59)), None);
}

#[test]
fn the_first_anchor_is_due_once_its_time_has_passed() {
    assert_eq!(tracker().next_due(&at("2026-01-01", 6, 0)), Some(time(6, 0)));
}

#[test]
fn a_used_anchor_is_not_offered_again_the_same_day() {
    let mut t = tracker();
    let now = at("2026-01-01", 6, 0);
    t.mark_used(&now, time(6, 0));
    assert_eq!(t.next_due(&now), None);
}

#[test]
fn a_restart_mid_day_skips_anchors_already_fired() {
    let now = at("2026-01-01", 13, 0);
    let mut t = tracker();
    t.mark_used(&now, time(6, 0));
    t.mark_used(&now, time(9, 30));
    let state = t.saved();

    let restarted =
        ForecastTracker::restored(&state, default_poll_times().to_vec(), "UTC".to_string());
    assert_eq!(
        restarted.next_due(&now),
        Some(time(12, 30)),
        "the first two anchors were already spent before the restart"
    );
}

#[test]
fn once_every_anchor_is_used_nothing_is_due_for_the_rest_of_the_day() {
    let mut t = tracker();
    let evening = at("2026-01-01", 23, 0);
    for slot in default_poll_times() {
        t.mark_used(&evening, slot);
    }
    assert_eq!(t.next_due(&evening), None);
}

#[test]
fn a_new_day_treats_the_budget_as_fresh() {
    let mut t = tracker();
    let yesterday = at("2026-01-01", 23, 0);
    for slot in default_poll_times() {
        t.mark_used(&yesterday, slot);
    }

    assert_eq!(
        t.next_due(&at("2026-01-02", 6, 0)),
        Some(time(6, 0)),
        "a new day must not inherit yesterday's spent budget"
    );
}

#[test]
fn a_catch_up_after_downtime_collapses_into_a_single_fetch() {
    let mut t = tracker();
    let now = at("2026-01-01", 13, 0); // past 06:00, 09:30 and 12:30

    let due = t.next_due(&now);
    assert_eq!(due, Some(time(12, 30)));

    t.mark_used(&now, due.unwrap());
    assert_eq!(
        t.next_due(&now),
        None,
        "the earlier anchors must not be offered after the catch-up"
    );
}

// --- what is kept -----------------------------------------------------------

#[test]
fn state_round_trips_through_a_restart() {
    let now = at("2026-01-01", 6, 0);
    let points = vec![point(1_700_000_000_000, 1234)];

    let mut t = tracker();
    t.set_forecast(points.clone(), Timestamp::from_millis(1_700_000_000_000));
    t.mark_used(&now, time(6, 0));
    let state = t.saved();

    let restored =
        ForecastTracker::restored(&state, default_poll_times().to_vec(), "UTC".to_string());
    let snapshot = restored.snapshot();
    assert_eq!(snapshot.points, points);
    assert_eq!(snapshot.as_of, Some(Timestamp::from_millis(1_700_000_000_000)));
    assert_eq!(restored.next_due(&now), None, "the fired anchor survived the restart");
}

/// A date that cannot be read leaves a fresh tracker behind.
#[test]
fn a_state_without_a_date_is_a_fresh_start() {
    let state = PersistedForecastState {
        date: "not a date".to_string(),
        fired: vec![time(6, 0)],
        points: vec![],
        fetched_at: None,
    };
    let t = ForecastTracker::restored(&state, default_poll_times().to_vec(), "UTC".to_string());
    assert_eq!(t.next_due(&at("2026-01-01", 6, 0)), Some(time(6, 0)));
    assert!(t.snapshot().points.is_empty());
}

#[test]
fn a_second_fetch_keeps_a_timestamp_the_new_fetch_no_longer_covers() {
    let mut t = tracker();
    let first_at = Timestamp::from_millis(1_700_000_000_000);
    t.set_forecast(vec![point(1_700_000_000_000, 500)], first_at);

    let second_at = Timestamp::from_millis(1_700_003_600_000);
    t.set_forecast(vec![point(1_700_007_200_000, 800)], second_at);

    let points = t.snapshot().points;
    assert!(
        points.iter().any(|p| p.at.as_millis() == 1_700_000_000_000),
        "the earlier point must survive a fetch that no longer mentions it: {points:?}"
    );
    assert!(points.iter().any(|p| p.at.as_millis() == 1_700_007_200_000));
}

#[test]
fn a_second_fetch_overwrites_a_shared_timestamp_with_fresh_data() {
    let mut t = tracker();
    let at_ms = 1_700_000_000_000;
    t.set_forecast(vec![point(at_ms, 500)], Timestamp::from_millis(at_ms));
    t.set_forecast(vec![point(at_ms, 900)], Timestamp::from_millis(at_ms));

    let points = t.snapshot().points;
    assert_eq!(points.len(), 1);
    assert_eq!(points[0].estimate, SolarPower { mw: 900_000 });
}

#[test]
fn a_fetch_on_a_new_day_prunes_points_from_before_today() {
    let mut t = tracker();

    let yesterday_evening =
        chrono_tz::UTC.with_ymd_and_hms(2026, 1, 1, 20, 0, 0).unwrap().timestamp_millis();
    t.set_forecast(
        vec![point(yesterday_evening, 500)],
        Timestamp::from_millis(yesterday_evening),
    );

    let this_morning =
        chrono_tz::UTC.with_ymd_and_hms(2026, 1, 2, 6, 0, 0).unwrap().timestamp_millis();
    t.set_forecast(vec![point(this_morning, 800)], Timestamp::from_millis(this_morning));

    let points = t.snapshot().points;
    assert_eq!(
        points.len(),
        1,
        "yesterday's point must be pruned once today's fetch lands: {points:?}"
    );
    assert_eq!(points[0].at, Timestamp::from_millis(this_morning));
}

/// A fetch uses its anchor up whether or not it succeeds.
#[test]
fn a_failed_fetch_is_not_tried_again() {
    let mut t = tracker();
    let now = at("2026-01-01", 6, 0);
    let stamp = Timestamp::from_millis(1_767_247_200_000);
    let failed = Err(ForecastError::Request("timed out".to_string()));
    assert!(!t.fetched(&now, time(6, 0), failed, stamp));
    assert_eq!(t.next_due(&now), None);
    assert!(t.snapshot().points.is_empty());

    let later = at("2026-01-01", 9, 30);
    let points = vec![point(1_767_258_000_000, 700)];
    assert!(t.fetched(&later, time(9, 30), Ok(points.clone()), stamp));
    assert_eq!(t.snapshot().points, points);
    assert_eq!(t.snapshot().as_of, Some(stamp));
}

#[test]
fn a_time_of_day_is_written_as_it_is_read() {
    assert_eq!(time(6, 5).to_string(), "06:05");
    assert_eq!(TimeOfDay::parse("23:59"), Ok(time(23, 59)));
    assert_eq!(time(1, 2).minutes(), 62);
    assert!(TimeOfDay::new(24, 0).is_err());
    assert!(TimeOfDay::new(0, 60).is_err());
    assert!(TimeOfDay::parse("six").is_err());
    assert!(TimeOfDay::parse("06").is_err());
}

#[test]
fn the_local_time_decides_what_is_due() {
    // 05:30 in UTC is 06:30 in Amsterdam in winter.
    let now = chrono_tz::UTC.with_ymd_and_hms(2026, 1, 1, 5, 30, 0).unwrap().timestamp_millis();
    let local = LocalNow::at(Timestamp::from_millis(now), "Europe/Amsterdam").unwrap();
    assert_eq!(local, at("2026-01-01", 6, 30));
    assert_eq!(tracker().next_due(&local), Some(time(6, 0)));
    assert_eq!(LocalNow::at(Timestamp::from_millis(now), "Mars/Olympus"), None);
}

#[test]
fn from_config_builds_the_matching_backend() {
    let solcast = from_config(&PredictionConfig::Solcast {
        api_key: "k".to_string(),
        site_east: "east".to_string(),
        site_west: "west".to_string(),
        state_path: "unused.json".to_string(),
        poll_times: default_poll_times().to_vec(),
    });
    assert!(matches!(solcast, Forecaster::Solcast(_)));

    let simulated = from_config(&PredictionConfig::Simulated {
        state_path: "unused.json".to_string(),
        poll_times: default_poll_times().to_vec(),
    });
    assert!(matches!(simulated, Forecaster::Simulated(_)));
}

#[test]
fn a_forecast_error_says_what_failed() {
    assert!(ForecastError::Request("timed out".to_string()).to_string().contains("timed out"));
    let parse = ForecastError::Parse { body: "<html>".to_string(), error: "eof".to_string() };
    assert!(parse.to_string().contains("eof"));
}

// --- a made-up sky ----------------------------------------------------------

fn midnight() -> Timestamp {
    let day = chrono::Utc.with_ymd_and_hms(2026, 6, 1, 0, 0, 0).unwrap();
    Timestamp::from_millis(day.timestamp_millis())
}

/// A cosine over the daylight hours, brightest at 13:00.
fn bell() -> Vec<SolarPower> {
    (0..1440)
        .map(|minute| {
            let hours_from_noon = minute as f64 / 60.0 - 13.0;
            let height = (hours_from_noon / 7.0 * std::f64::consts::FRAC_PI_2).cos().max(0.0);
            SolarPower { mw: (PEAK as f64 * height * 1000.0).round() as i64 }
        })
        .collect()
}

#[test]
fn produces_forty_eight_half_hourly_points() {
    let points = clear_sky_curve(midnight(), &bell());
    assert_eq!(points.len(), 48);
    assert_eq!(points[1].at.as_millis() - points[0].at.as_millis(), 1_800_000);
}

#[test]
fn is_zero_outside_daylight_hours() {
    let points = clear_sky_curve(midnight(), &bell());
    // Index 0 is 00:00, index 10 is 05:00: both before the 06:00 start.
    assert_eq!(points[0].estimate, SolarPower::zero());
    assert_eq!(points[10].estimate, SolarPower::zero());
    // Index 41 is 20:30, after the 20:00 end.
    assert_eq!(points[41].estimate, SolarPower::zero());
}

#[test]
fn peaks_at_solar_noon() {
    let points = clear_sky_curve(midnight(), &bell());
    // Index 26 is 13:00.
    let noon = points[26].estimate.mw as f64 / 1000.0;
    assert!((noon - PEAK as f64).abs() < 1.0, "expected ~peak at 13:00, got {noon}");

    for p in &points {
        assert!(p.estimate.mw as f64 / 1000.0 <= PEAK as f64 + 1e-6);
    }
}

#[test]
fn the_same_starting_instant_always_produces_the_same_curve() {
    assert_eq!(clear_sky_curve(midnight(), &bell()), clear_sky_curve(midnight(), &bell()));
}

// --- a real one -------------------------------------------------------------

#[test]
fn parses_a_realistic_response_converting_kw_to_w() {
    let body = r#"{"forecasts":[
        {"pv_estimate":1.234,"pv_estimate10":1.0,"pv_estimate90":1.5,"period_end":"2026-06-01T12:00:00.0000000Z","period":"PT30M"},
        {"pv_estimate":0.0,"pv_estimate10":0.0,"pv_estimate90":0.0,"period_end":"2026-06-01T12:30:00.0000000Z","period":"PT30M"}
    ]}"#;

    let points = parse_forecast_response(body).unwrap();

    assert_eq!(points.len(), 2);
    assert_eq!(points[0].estimate, SolarPower { mw: 1_234_000 });
    assert_eq!(points[1].estimate, SolarPower::zero());
    assert_eq!(points[1].at.as_millis() - points[0].at.as_millis(), 1_800_000);
}

#[test]
fn malformed_json_is_an_error_not_a_panic() {
    assert!(parse_forecast_response("not valid json").is_err());
    assert!(parse_forecast_response("{}").is_err());
    assert!(parse_forecast_response(r#"{"forecasts":[{"period_end":"x"}]}"#).is_err());
}

/// A response and its entries may be lists of their values, in order.
#[test]
fn a_response_may_be_written_without_names() {
    let body = r#"[[[1.5,"2026-06-01T12:00:00Z"],{"period_end":"2026-06-01T12:30:00Z","pv_estimate":2}]]"#;
    let points = parse_forecast_response(body).unwrap();
    assert_eq!(points.len(), 2);
    assert_eq!(points[0].estimate, SolarPower { mw: 1_500_000 });
    assert_eq!(points[1].estimate, SolarPower { mw: 2_000_000 });

    let says = |body: &str| parse_forecast_response(body).unwrap_err();
    assert_eq!(says("[]"), "invalid length 0, expected struct SolcastResponse with 1 element");
    assert_eq!(says("[[],[]]"), "trailing characters");
    assert_eq!(says("5"), "invalid type: integer `5`, expected struct SolcastResponse");
    assert_eq!(says("{}"), "missing field `forecasts`");
    assert_eq!(says("[true]"), "invalid type: boolean `true`, expected a sequence");
    assert_eq!(says("[[[1]]]"), "invalid length 1, expected struct SolcastEntry with 2 elements");
    assert_eq!(says("[[[1,\"x\",2]]]"), "trailing characters");
    assert_eq!(says("[[null]]"), "invalid type: null, expected struct SolcastEntry");
    assert_eq!(says("[[{}]]"), "missing field `pv_estimate`");
    assert_eq!(says(r#"[[{"pv_estimate":1}]]"#), "missing field `period_end`");
    assert_eq!(says(r#"[[{"pv_estimate":"1"}]]"#), "invalid type: string \"1\", expected f64");
    assert_eq!(says("[[[1,2.5]]]"), "invalid type: floating point `2.5`, expected a string");
}

#[test]
fn an_entry_with_an_unparseable_period_end_is_skipped_not_fatal() {
    let body = r#"{"forecasts":[
        {"pv_estimate":1.0,"period_end":"not a timestamp"},
        {"pv_estimate":2.0,"period_end":"2026-06-01T12:00:00Z"}
    ]}"#;

    let points = parse_forecast_response(body).unwrap();

    assert_eq!(points.len(), 1);
    assert_eq!(points[0].estimate, SolarPower { mw: 2_000_000 });
}

#[test]
fn combine_series_sums_matching_timestamps() {
    let east = vec![point(1_000, 100), point(2_000, 200)];
    let west = vec![point(1_000, 50)];

    let combined = combine_series(&east, &west);

    assert_eq!(combined.len(), 2);
    assert_eq!(combined[0], point(1_000, 150));
    assert_eq!(combined[1], point(2_000, 200));
}

#[test]
fn combine_series_of_two_empties_is_empty() {
    assert!(combine_series(&[], &[]).is_empty());
}

#[test]
fn combine_series_output_is_sorted_by_time() {
    let east = vec![point(3_000, 1), point(1_000, 2)];
    let west = vec![point(2_000, 3)];

    let combined = combine_series(&east, &west);

    let times: Vec<i64> = combined.iter().map(|p| p.at.as_millis()).collect();
    assert_eq!(times, vec![1_000, 2_000, 3_000]);
}

#[test]
fn a_site_is_asked_for_by_its_url() {
    let f = SolcastForecaster::new("key".to_string(), "e".to_string(), "w".to_string());
    assert_eq!(
        f.url("e"),
        "https://api.solcast.com.au/rooftop_sites/e/forecasts?format=json&api_key=key"
    );
}
