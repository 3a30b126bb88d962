//! Signed grid power from a meter that only counts energy.

use vstd::prelude::*;

use crate::models::MeterReading;
use crate::units::{saturate_i64, saturated_i64, GridPower, SolarPower, Timestamp};

verus! {

/// Tells the net grid power from meter data: positive while importing, negative
/// while exporting. Nothing while there is no new estimate, so that a battery
/// holds its current setting.
pub trait GridPowerEstimator {
    fn update(&mut self, meter: &MeterReading, solar_power: SolarPower, now: Timestamp) -> Option<
        GridPower,
    >;
}

/// Where the registers stood, and when.
#[derive(Debug, Clone, Copy, PartialEq, Eq, Structural)]
pub struct Baseline {
    /// In thousandths of a watt-hour.
    pub import: i64,
    pub export: i64,
    pub at: Timestamp,
}

/// Compares the two registers with where they stood at the last tick, which
/// gives both the direction and the size of what flows. Between ticks there is
/// no estimate.
#[derive(Debug, Clone, Copy, PartialEq, Eq, Structural)]
pub struct KwhDeltaEstimator {
    pub base: Option<Baseline>,
}

/// Half of the watt-hour that a register counts in, in thousandths.
pub const HALF_TICK: i128 = 500;

/// The quotient without its fraction.
pub open spec fn towards_zero(num: int, den: int) -> int {
    if num >= 0 {
        num / den
    } else {
        -((-num) / den)
    }
}

/// The mean power of a net energy over a time, in milliwatts.
pub open spec fn mean_power(net: int, ms: int) -> int {
    saturated_i64(towards_zero(net * 3_600_000, ms))
}

/// What a reading comes to, and the baseline that it leaves. A register that
/// runs backwards starts over.
pub open spec fn estimated(base: Option<Baseline>, meter: MeterReading, now: Timestamp) -> (
    Option<int>,
    Baseline,
) {
    let fresh = Baseline {
        import: meter.consumption_total_kwh.micro,
        export: meter.production_total_kwh.micro,
        at: now,
    };
    match base {
        None => (None, fresh),
        Some(base) => {
            let import = fresh.import - base.import;
            let export = fresh.export - base.export;
            let elapsed = now.ms - base.at.ms;
            if import < 0 || export < 0 {
                (None, fresh)
            } else if elapsed > 0 && (import > HALF_TICK || export > HALF_TICK) {
                (Some(mean_power(import - export, elapsed)), fresh)
            } else {
                (None, base)
            }
        },
    }
}

impl KwhDeltaEstimator {
    pub fn new() -> (out: Self)
        ensures
            out.base is None,
    {
        KwhDeltaEstimator { base: None }
    }
}

impl GridPowerEstimator for KwhDeltaEstimator {
    fn update(&mut self, meter: &MeterReading, solar_power: SolarPower, now: Timestamp) -> (out:
        Option<GridPower>)
        ensures
            final(self).base == Some(estimated(old(self).base, *meter, now).1),
            match out {
                Some(power) => estimated(old(self).base, *meter, now).0 == Some(power.mw as int),
                None => estimated(old(self).base, *meter, now).0 is None,
            },
    {
        let fresh = Baseline {
            import: meter.consumption_total_kwh.micro,
            export: meter.production_total_kwh.micro,
            at: now,
        };
        let base = match self.base {
            Some(base) => base,
            None => {
                self.base = Some(fresh);
                return None;
            },
        };
        if fresh.import < base.import || fresh.export < base.export {
            self.base = Some(fresh);
            return None;
        }
        let import: i128 = fresh.import as i128 - base.import as i128;
        let export: i128 = fresh.export as i128 - base.export as i128;
        let elapsed: i128 = now.as_millis() as i128 - base.at.as_millis() as i128;
        if elapsed > 0 && (import > HALF_TICK || export > HALF_TICK) {
            let net: i128 = import - export;
            let mw: i128 = if net >= 0 {
                net * 3_600_000 / elapsed
            } else {
                -((-net) * 3_600_000 / elapsed)
            };
            self.base = Some(fresh);
            return Some(GridPower { mw: saturate_i64(mw) });
        }
        None
    }
}

// --- laws ----------------------------------------------------------------------

/// An estimate has the sign of what flowed: import is never reported as export,
/// nor the other way round.
pub proof fn an_estimate_has_the_direction_of_the_flow(
    base: Baseline,
    meter: MeterReading,
    now: Timestamp,
)
    ensures
        estimated(Some(base), meter, now).0 matches Some(mw) ==> {
            let import = meter.consumption_total_kwh.micro - base.import;
            let export = meter.production_total_kwh.micro - base.export;
            &&& import >= export ==> mw >= 0
            &&& import <= export ==> mw <= 0
        },
{
    let net = (meter.consumption_total_kwh.micro - base.import) - (
    meter.production_total_kwh.micro - base.export);
    let elapsed = now.ms - base.at.ms;
    if elapsed > 0 {
        if net >= 0 {
            assert(net * 3_600_000 / elapsed >= 0) by (nonlinear_arith)
                requires
                    net >= 0,
                    elapsed > 0,
            ;
        }
        if net <= 0 {
            assert((-net) * 3_600_000 / elapsed >= 0) by (nonlinear_arith)
                requires
                    net <= 0,
                    elapsed > 0,
            ;
        }
    }
}

/// Nothing is counted twice and nothing is lost: the baseline moves exactly when
/// an estimate is given or the registers start over.
pub proof fn the_baseline_moves_with_the_estimate(
    base: Baseline,
    meter: MeterReading,
    now: Timestamp,
)
    requires
        meter.consumption_total_kwh.micro >= base.import,
        meter.production_total_kwh.micro >= base.export,
    ensures
        estimated(Some(base), meter, now).0 is None ==> estimated(Some(base), meter, now).1 == base,
        estimated(Some(base), meter, now).0 is Some ==> estimated(Some(base), meter, now).1.at
            == now,
{
}

/// An estimate is the mean of what flowed: over the time since the last tick it comes to
/// the energy that the registers counted, import less export, to within a milliwatt and
/// never beyond it. A thousandth of a watt-hour is 3.6 million milliwatt-milliseconds.
pub proof fn an_estimate_accounts_for_the_energy(
    base: Baseline,
    meter: MeterReading,
    now: Timestamp,
)
    ensures
        estimated(Some(base), meter, now).0 matches Some(mw) ==> i64::MIN < mw < i64::MAX ==> {
            let net = (meter.consumption_total_kwh.micro - base.import) - (
            meter.production_total_kwh.micro - base.export);
            let elapsed = now.ms - base.at.ms;
            &&& elapsed > 0
            &&& net >= 0 ==> 0 <= net * 3_600_000 - mw * elapsed < elapsed
            &&& net <= 0 ==> 0 <= mw * elapsed - net * 3_600_000 < elapsed
        },
{
    let net = (meter.consumption_total_kwh.micro - base.import) - (
    meter.production_total_kwh.micro - base.export);
    let elapsed = now.ms - base.at.ms;
    if elapsed > 0 {
        let size = if net >= 0 {
            net * 3_600_000
        } else {
            -(net * 3_600_000)
        };
        let whole = size / elapsed;
        assert(0 <= size - whole * elapsed < elapsed) by (nonlinear_arith)
            requires
                whole == size / elapsed,
                elapsed > 0,
        ;
        assert((-whole) * elapsed == -(whole * elapsed)) by (nonlinear_arith);
        assert((-net) * 3_600_000 == -(net * 3_600_000));
        if size == 0 {
            assert(whole == 0) by (nonlinear_arith)
                requires
                    whole == size / elapsed,
                    size == 0,
                    elapsed > 0,
            ;
        }
    }
}

/// An estimate comes exactly when a register has moved by more than half of what it
/// counts in, neither has gone back, and time has passed.
pub proof fn an_estimate_comes_with_a_tick(base: Baseline, meter: MeterReading, now: Timestamp)
    ensures
        estimated(Some(base), meter, now).0 is Some <==> {
            let import = meter.consumption_total_kwh.micro - base.import;
            let export = meter.production_total_kwh.micro - base.export;
            &&& import >= 0
            &&& export >= 0
            &&& import > 500 || export > 500
            &&& now.ms > base.at.ms
        },
{
}

/// A first reading, one that gives an estimate and one on which a register went back
/// become the baseline for the next: where each register stands, and when.
pub proof fn a_baseline_is_where_the_registers_stand(
    base: Option<Baseline>,
    meter: MeterReading,
    now: Timestamp,
)
    requires
        base matches Some(last) ==> estimated(base, meter, now).0 is Some
            || meter.consumption_total_kwh.micro < last.import
            || meter.production_total_kwh.micro < last.export,
    ensures
        estimated(base, meter, now).1.import == meter.consumption_total_kwh.micro,
        estimated(base, meter, now).1.export == meter.production_total_kwh.micro,
        estimated(base, meter, now).1.at == now,
        base is None ==> estimated(base, meter, now).0 is None,
{
}

} // verus!
