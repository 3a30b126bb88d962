//! Net power read off the counters of a meter.

use zendure::grid_power::{GridPowerEstimator, KwhDeltaEstimator};
use zendure::models::MeterReading;
use zendure::units::{GridPower, Register, SolarPower, Timestamp};

/// Counters in watt-hours.
fn meter(import_wh: i64, export_wh: i64) -> MeterReading {
    MeterReading {
        device_id: "test".to_string(),
        consumption_total_kwh: Register { micro: import_wh * 1000 },
        production_total_kwh: Register { micro: export_wh * 1000 },
    }
}

fn at(secs: i64) -> Timestamp {
    Timestamp::from_millis(secs * 1000)
}

fn update(est: &mut KwhDeltaEstimator, reading: MeterReading, secs: i64) -> Option<f64> {
    est.update(&reading, SolarPower::zero(), at(secs)).map(|net| net.mw as f64 / 1000.0)
}

#[test]
fn first_reading_returns_none() {
    let mut est = KwhDeltaEstimator::new();
    assert!(update(&mut est, meter(500_000, 300_000), 0).is_none());
}

#[test]
fn import_tick_gives_positive_power() {
    let mut est = KwhDeltaEstimator::new();
    update(&mut est, meter(500_000, 300_000), 0);

    // 0.001 kWh imported in 10 seconds = 360W
    let net = update(&mut est, meter(500_001, 300_000), 10).unwrap();
    assert!((net - 360.0).abs() < 1.0);
}

#[test]
fn export_tick_gives_negative_power() {
    let mut est = KwhDeltaEstimator::new();
    update(&mut est, meter(500_000, 300_000), 0);

    // 0.001 kWh exported in 10 seconds = -360W
    let net = update(&mut est, meter(500_000, 300_001), 10).unwrap();
    assert!((net - (-360.0)).abs() < 1.0);
}

#[test]
fn both_tick_gives_net_power() {
    let mut est = KwhDeltaEstimator::new();
    update(&mut est, meter(500_000, 300_000), 0);

    // 0.003 kWh imported, 0.001 kWh exported in 10s
    let net = update(&mut est, meter(500_003, 300_001), 10).unwrap();
    assert!((net - 720.0).abs() < 1.0);
}

#[test]
fn no_tick_returns_none() {
    let mut est = KwhDeltaEstimator::new();
    update(&mut est, meter(500_000, 300_000), 0);

    assert!(update(&mut est, meter(500_000, 300_000), 10).is_none());
}

#[test]
fn direction_change_detected() {
    let mut est = KwhDeltaEstimator::new();
    update(&mut est, meter(500_000, 300_000), 0);

    // Importing 360W
    update(&mut est, meter(500_001, 300_000), 10);

    // Now exporting 360W
    let net = update(&mut est, meter(500_001, 300_001), 20).unwrap();
    assert!((net - (-360.0)).abs() < 1.0);
}

#[test]
fn longer_window_gives_accurate_low_power() {
    let mut est = KwhDeltaEstimator::new();
    update(&mut est, meter(500_000, 300_000), 0);

    // 0.001 kWh in 72 seconds = 50W
    let net = update(&mut est, meter(500_001, 300_000), 72).unwrap();
    assert!((net - 50.0).abs() < 1.0);
}

#[test]
fn meter_reset_returns_none() {
    let mut est = KwhDeltaEstimator::new();
    update(&mut est, meter(500_000, 300_000), 0);

    // The counters drop: no estimate, and a new baseline.
    assert!(update(&mut est, meter(0, 0), 10).is_none());
    let net = update(&mut est, meter(1, 0), 20).unwrap();
    assert!((net - 360.0).abs() < 1.0);
}

#[test]
fn near_zero_net_from_equal_ticks() {
    let mut est = KwhDeltaEstimator::new();
    update(&mut est, meter(500_000, 300_000), 0);

    let net = update(&mut est, meter(500_001, 300_001), 10).unwrap();
    assert!(net.abs() < 1.0);
}

#[test]
fn baseline_resets_after_tick() {
    let mut est = KwhDeltaEstimator::new();
    update(&mut est, meter(500_000, 300_000), 0);

    // First tick: 360W import
    update(&mut est, meter(500_001, 300_000), 10);

    // Second tick from the new baseline: 0.002 kWh in 20s = 360W
    let net = update(&mut est, meter(500_003, 300_000), 30).unwrap();
    assert!((net - 360.0).abs() < 1.0);
}

#[test]
fn an_estimate_is_exact_to_the_milliwatt() {
    let mut est = KwhDeltaEstimator::new();
    update(&mut est, meter(500_000, 300_000), 0);
    let net = est.update(&meter(500_001, 300_000), SolarPower::zero(), at(7));
    assert_eq!(net, Some(GridPower { mw: 514_285 }));
}
