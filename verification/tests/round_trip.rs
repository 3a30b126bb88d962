//! Round-trip efficiency over the last day.

use zendure::rte::{PersistedSample, PersistedState, RteTracker, WINDOW_MS};
use zendure::units::{KiloWattHours, Percent, Soc, Timestamp, WattHours, Watts};

const T0: i64 = 1_757_000_000_000;

fn at(secs: i64) -> Timestamp {
    Timestamp::from_millis(T0 + secs * 1000)
}

fn record(tracker: &mut RteTracker, secs: i64, charge: i32, discharge: i32) {
    tracker.record_at(at(secs), at(secs), Watts { w: charge }, Watts { w: discharge });
}

#[test]
fn test_no_data_returns_none() {
    let tracker = RteTracker::new();
    assert!(tracker.rte_percent().is_none());
}

#[test]
fn test_rte_calculation() {
    let mut tracker = RteTracker::new();

    // An hour of charging at 1000W
    record(&mut tracker, 0, 1000, 0);
    record(&mut tracker, 3600, 1000, 0);

    // An hour of discharging at 850W (85% efficiency)
    record(&mut tracker, 3600, 0, 850);
    record(&mut tracker, 7200, 0, 850);

    let rte = tracker.rte_percent().unwrap().micro.unwrap() as f64 / 1e6;
    assert!((rte - 85.0).abs() < 1.0, "Expected ~85% RTE, got {rte}");
}

#[test]
fn test_rte_geometric_mean_fallback() {
    let mut tracker = RteTracker::new();

    record(&mut tracker, 0, 1000, 0);
    record(&mut tracker, 3600, 1000, 0);

    // An hour of discharging at 500W (50% raw efficiency, below 70%)
    record(&mut tracker, 3600, 0, 500);
    record(&mut tracker, 7200, 0, 500);

    let rte = tracker.rte_percent().unwrap().micro.unwrap() as f64 / 1e6;
    // Raw 50% gives sqrt(0.5) * 100
    assert!((rte - 70.7).abs() < 1.0, "Expected ~70.7% RTE with fallback, got {rte}");
}

#[test]
fn test_usable_kwh() {
    let tracker = RteTracker::new();
    // No RTE data: 85%. 3840 Wh, 70% usable: 3840 * 0.70 * 0.85 / 1000 = 2.2848
    let usable = tracker.usable_kwh(
        Soc::new(80),
        Soc::new(10),
        &[WattHours::from_wh(1920), WattHours::from_wh(1920)],
    );
    let usable = usable.micro.unwrap() as f64 / 1e6;
    assert!((usable - 2.285).abs() < 0.1, "Expected ~2.28 kWh, got {usable}");
}

#[test]
fn test_usable_kwh_at_min_soc() {
    let tracker = RteTracker::new();
    let usable = tracker.usable_kwh(Soc::new(10), Soc::new(10), &[WattHours::from_wh(1920)]);
    assert_eq!(usable, KiloWattHours::zero());
}

#[test]
fn test_persistence_roundtrip() {
    let mut tracker = RteTracker::new();
    record(&mut tracker, 0, 1000, 0);
    record(&mut tracker, 3600, 0, 850);
    let saved = tracker.saved();

    let restored = RteTracker::restored(&saved, at(3600), at(3600));
    assert!(
        restored.total_charge_wh() > WattHours::zero()
            || restored.total_discharge_wh() > WattHours::zero()
    );
    assert_eq!(restored.total_charge_wh(), tracker.total_charge_wh());
    assert_eq!(restored.total_discharge_wh(), tracker.total_discharge_wh());
    assert_eq!(restored.saved(), saved);
}

/// The figures of the calculations above to the last digit.
#[test]
fn the_figures_are_exact() {
    let mut tracker = RteTracker::new();
    record(&mut tracker, 0, 1000, 0);
    record(&mut tracker, 3600, 1000, 0);
    assert_eq!(tracker.total_charge_wh(), WattHours::from_wh(1000));
    assert!(tracker.rte_percent().is_none() || tracker.total_discharge_wh() == WattHours::zero());

    let empty = RteTracker::new();
    let packs = [WattHours::from_wh(1920), WattHours::from_wh(1920)];
    assert_eq!(empty.usable_kwh(Soc::new(80), Soc::new(10), &packs).micro, Some(2_284_800));
}

/// What is older than a day no longer counts.
#[test]
fn samples_leave_the_window_after_a_day() {
    let mut tracker = RteTracker::new();
    record(&mut tracker, 0, 1000, 0);
    record(&mut tracker, 60, 1000, 0);
    assert!(tracker.total_charge_wh() > WattHours::zero());
    let day = WINDOW_MS / 1000;
    record(&mut tracker, day + 61, 0, 0);
    record(&mut tracker, day + 62, 0, 0);
    let kept = tracker.total_charge_wh();
    assert!(kept < WattHours::from_wh(1000 * 24 + 1000));
    record(&mut tracker, 2 * day + 120, 0, 0);
    record(&mut tracker, 2 * day + 121, 0, 0);
    assert_eq!(tracker.total_charge_wh(), WattHours::zero());
    assert_eq!(tracker.rte_percent(), None);
}

/// A sample of the file that is older than a day is not taken up.
#[test]
fn a_restart_drops_what_left_the_window_meanwhile() {
    let state = PersistedState {
        samples: vec![
            PersistedSample {
                ts: at(0),
                charge_wh: WattHours::from_wh(2),
                discharge_wh: WattHours::from_wh(3),
            },
            PersistedSample {
                ts: at(80_000),
                charge_wh: WattHours::from_wh(5),
                discharge_wh: WattHours::from_wh(4),
            },
        ],
        last_charge_power: Watts { w: 100 },
        last_discharge_power: Watts { w: 0 },
        last_sample_ts: Some(at(80_000)),
    };
    let tracker = RteTracker::restored(&state, at(0), at(90_000));
    assert_eq!(tracker.total_charge_wh(), WattHours::from_wh(5));
    assert_eq!(tracker.total_discharge_wh(), WattHours::from_wh(4));
    assert_eq!(tracker.rte_percent(), Some(Percent { micro: Some(80_000_000) }));
}

/// The root of less than nothing is no number, and neither is what is reckoned
/// with it.
#[test]
fn less_than_nothing_discharged_has_no_efficiency() {
    let state = PersistedState {
        samples: vec![PersistedSample {
            ts: at(80_000),
            charge_wh: WattHours::from_wh(5),
            discharge_wh: WattHours { parts: -7_200_000 },
        }],
        last_charge_power: Watts { w: 0 },
        last_discharge_power: Watts { w: 0 },
        last_sample_ts: Some(at(80_000)),
    };
    let tracker = RteTracker::restored(&state, at(0), at(90_000));
    let percent = tracker.rte_percent().unwrap();
    assert_eq!(percent.micro, None);
    assert_eq!(percent.to_string(), format!("{:.1}", f64::NAN));
    let packs = [WattHours::from_wh(1920)];
    let usable = tracker.usable_kwh(Soc::new(80), Soc::new(10), &packs);
    assert_eq!(usable.to_string(), "NaN");
    assert_eq!(tracker.usable_kwh(Soc::new(10), Soc::new(10), &packs), KiloWattHours::zero());
}

/// A decimal that lies half way between two others is published as the binary
/// number next to it is.
#[test]
fn energies_are_published_as_binary_numbers_are() {
    for wh in [0_u32, 5, 15, 25, 45, 125, 1005, 1115, 1920, 2675, 3840, 999_995] {
        let expected = format!("{:.2}", f64::from(wh) / 1000.0);
        assert_eq!(WattHours::from_wh(i64::from(wh)).to_kwh().to_string(), expected);
        assert_eq!(WattHours::from_wh(i64::from(wh)).kwh_text(), expected);
    }
    assert_eq!(WattHours::from_wh(5).to_kwh().to_string(), "0.01");
    assert_eq!(WattHours { parts: -7_200_000 * 1005 }.to_kwh().to_string(), "-1.00");
    assert_eq!(Percent { micro: Some(85_250_000) }.to_string(), "85.2");
    assert_eq!(Percent { micro: Some(0_350_000) }.to_string(), format!("{:.1}", 0.35));
}
