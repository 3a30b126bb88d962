//! Quantities, one type per meaning.
//!
//! Power readings are held in whole milliwatts and energy in whole microjoules,
//! so that every rule below is exact. Signs are fixed per type: grid power is
//! positive while importing, battery power is positive while discharging.

use vstd::arithmetic::mul::{lemma_mul_inequality, lemma_mul_inequality_converse};
use vstd::prelude::*;

use crate::binary64;
use crate::text;

verus! {

// --- time ----------------------------------------------------------------------

/// A wall-clock instant, in unix milliseconds.
#[derive(Debug, Clone, Copy, PartialEq, Eq, PartialOrd, Ord, Structural)]
pub struct Timestamp {
    pub ms: i64,
}

/// A span of time that was configured or measured, never negative.
#[derive(Debug, Clone, Copy, PartialEq, Eq, Structural)]
pub struct Duration {
    pub secs: u64,
    pub millis: u32,
}

/// The difference of two instants. Negative when the clock stepped back.
#[derive(Debug, Clone, Copy, PartialEq, Eq, Structural)]
pub struct Elapsed {
    pub ms: i128,
}

impl View for Duration {
    type V = int;

    /// The span in milliseconds.
    open spec fn view(&self) -> int {
        self.secs * 1000 + self.millis
    }
}

/// `x` moved into the range of an `i64`.
pub open spec fn saturated_i64(x: int) -> int {
    if x > i64::MAX {
        i64::MAX as int
    } else if x < i64::MIN {
        i64::MIN as int
    } else {
        x
    }
}

/// `x` moved into the range of an `i32`.
pub open spec fn saturated_i32(x: int) -> int {
    if x > i32::MAX {
        i32::MAX as int
    } else if x < i32::MIN {
        i32::MIN as int
    } else {
        x
    }
}

pub(crate) fn saturate_i64(x: i128) -> (out: i64)
    ensures
        out == saturated_i64(x as int),
{
    if x > 0x7fff_ffff_ffff_ffff {
        i64::MAX
    } else if x < -0x8000_0000_0000_0000 {
        i64::MIN
    } else {
        x as i64
    }
}

pub(crate) fn saturate_i32(x: i128) -> (out: i32)
    ensures
        out == saturated_i32(x as int),
{
    if x > 0x7fff_ffff {
        i32::MAX
    } else if x < -0x8000_0000 {
        i32::MIN
    } else {
        x as i32
    }
}

impl Duration {
    #[verifier::allow_in_spec]
    pub fn zero() -> Self
        returns
            (Duration { secs: 0, millis: 0 }),
    {
        Duration { secs: 0, millis: 0 }
    }

    pub fn from_secs(secs: u64) -> (out: Self)
        ensures
            out == (Duration { secs, millis: 0 }),
            out@ == secs * 1000,
    {
        Duration { secs, millis: 0 }
    }

    pub fn from_millis(ms: u64) -> (out: Self)
        ensures
            out == (Duration { secs: ms / 1000, millis: (ms % 1000) as u32 }),
            out@ == ms,
    {
        Duration { secs: ms / 1000, millis: (ms % 1000) as u32 }
    }

    pub open spec fn spec_plus(self, other: Duration) -> Duration {
        let ms = self@ + other@;
        if ms / 1000 > u64::MAX {
            Duration { secs: u64::MAX, millis: 999 }
        } else {
            Duration { secs: (ms / 1000) as u64, millis: (ms % 1000) as u32 }
        }
    }

    /// The sum, or the most there is.
    pub fn plus(self, other: Duration) -> (out: Self)
        ensures
            out == self.spec_plus(other),
    {
        let ms: u128 = self.as_millis() + other.as_millis();
        if ms / 1000 > 0xffff_ffff_ffff_ffff {
            Duration { secs: u64::MAX, millis: 999 }
        } else {
            Duration { secs: (ms / 1000) as u64, millis: (ms % 1000) as u32 }
        }
    }

    /// The whole seconds of the span.
    pub fn as_secs(&self) -> (out: u64)
        ensures
            out == self.secs,
    {
        self.secs
    }

    /// The span in milliseconds.
    pub fn as_millis(&self) -> (out: u128)
        ensures
            out == self@,
    {
        self.secs as u128 * 1000 + self.millis as u128
    }
}

impl Timestamp {
    pub fn from_millis(ms: i64) -> (out: Self)
        ensures
            out.ms == ms,
    {
        Timestamp { ms }
    }

    pub fn as_millis(self) -> (out: i64)
        ensures
            out == self.ms,
    {
        self.ms
    }

    /// How long after `earlier` this is.
    pub fn since(self, earlier: Timestamp) -> (out: Elapsed)
        ensures
            out.ms == self.ms - earlier.ms,
    {
        Elapsed { ms: self.ms as i128 - earlier.ms as i128 }
    }

    /// The instant that lies `span` before this one, or the earliest there is.
    pub fn minus(self, span: Duration) -> (out: Timestamp)
        ensures
            out.ms == saturated_i64(self.ms - span@),
    {
        Timestamp { ms: saturate_i64(self.ms as i128 - span.as_millis() as i128) }
    }
}

impl Elapsed {
    /// Strictly shorter than `span`. A backwards step is shorter than any.
    pub fn shorter_than(self, span: Duration) -> (out: bool)
        ensures
            out == (self.ms < span@),
    {
        self.ms < span.as_millis() as i128
    }
}

// --- power ---------------------------------------------------------------------

/// A power in whole watts.
#[derive(Debug, Clone, Copy, PartialEq, Eq, PartialOrd, Ord, Structural)]
pub struct Watts {
    pub w: i32,
}

/// Net power at the grid connection, in milliwatts: positive while importing.
#[derive(Debug, Clone, Copy, PartialEq, Eq, PartialOrd, Ord, Structural)]
pub struct GridPower {
    pub mw: i64,
}

/// Solar production, in milliwatts.
#[derive(Debug, Clone, Copy, PartialEq, Eq, PartialOrd, Ord, Structural)]
pub struct SolarPower {
    pub mw: i64,
}

/// What a battery does, in watts: positive while discharging.
#[derive(Debug, Clone, Copy, PartialEq, Eq, PartialOrd, Ord, Structural)]
pub struct BatteryPower {
    pub w: i32,
}

/// The most a device may draw or deliver.
#[derive(Debug, Clone, Copy, PartialEq, Eq, PartialOrd, Ord, Structural)]
pub struct PowerCap {
    pub watts: u32,
}

/// Power deliberately left on the table, to keep clear of zero.
#[derive(Debug, Clone, Copy, PartialEq, Eq, PartialOrd, Ord, Structural)]
pub struct PowerMargin {
    pub watts: u32,
}

/// A power to command. Never negative: the mode carries the direction.
#[derive(Debug, Clone, Copy, PartialEq, Eq, PartialOrd, Ord, Structural)]
pub struct Setpoint {
    pub watts: u32,
}

/// Whole watts of a milliwatt figure, with the fraction dropped.
pub open spec fn truncated_watts(mw: int) -> int {
    if mw < 0 {
        -((-mw) / 1000)
    } else {
        mw / 1000
    }
}

fn truncate_watts(mw: i128) -> (out: i32)
    requires
        -0x8000_0000_0000_0000 <= mw <= 0x8000_0000_0000_0000,
    ensures
        out == saturated_i32(truncated_watts(mw as int)),
{
    if mw < 0 {
        saturate_i32(-((-mw) / 1000))
    } else {
        saturate_i32(mw / 1000)
    }
}

impl Watts {
    #[verifier::allow_in_spec]
    pub fn zero() -> Self
        returns
            (Watts { w: 0 }),
    {
        Watts { w: 0 }
    }

    /// A figure as a device reports it, unsigned.
    pub fn from_device(watts: u32) -> (out: Self)
        ensures
            out.w == saturated_i32(watts as int),
    {
        Watts { w: saturate_i32(watts as i128) }
    }

    pub fn get(self) -> (out: i32)
        ensures
            out == self.w,
    {
        self.w
    }
}

impl GridPower {
    #[verifier::allow_in_spec]
    pub fn zero() -> Self
        returns
            (GridPower { mw: 0 }),
    {
        GridPower { mw: 0 }
    }

    /// The import in whole watts; negative while exporting.
    pub open spec fn spec_importing(self) -> int {
        saturated_i32(truncated_watts(self.mw as int))
    }

    /// The export in whole watts; negative while importing.
    pub open spec fn spec_exporting(self) -> int {
        saturated_i32(truncated_watts(-self.mw))
    }

    pub fn importing(self) -> (out: Watts)
        ensures
            out.w == self.spec_importing(),
    {
        Watts { w: truncate_watts(self.mw as i128) }
    }

    pub fn exporting(self) -> (out: Watts)
        ensures
            out.w == self.spec_exporting(),
    {
        Watts { w: truncate_watts(-(self.mw as i128)) }
    }

    /// The reading with what a battery contributes taken back out.
    pub fn plus_battery(self, battery: BatteryPower) -> (out: GridPower)
        ensures
            out.mw == saturated_i64(self.mw + battery.w * 1000),
    {
        GridPower { mw: saturate_i64(self.mw as i128 + battery.w as i128 * 1000) }
    }

    /// Appends the reading in whole watts.
    pub fn push_to(self, s: &mut String)
        ensures
            final(s)@ == old(s)@ + text::whole_of_milli(self.mw as int),
    {
        text::push_whole_of_milli(s, self.mw as i128);
    }
}

/// What a forecast says of one moment.
#[derive(Debug, Clone, Copy, PartialEq, Eq, Structural)]
pub struct SolarForecastPoint {
    pub at: Timestamp,
    pub estimate: SolarPower,
}

impl SolarPower {
    #[verifier::allow_in_spec]
    pub fn zero() -> Self
        returns
            (SolarPower { mw: 0 }),
    {
        SolarPower { mw: 0 }
    }
}

impl BatteryPower {
    #[verifier::allow_in_spec]
    pub fn zero() -> Self
        returns
            (BatteryPower { w: 0 }),
    {
        BatteryPower { w: 0 }
    }

    /// The power taken in, zero while discharging.
    pub open spec fn spec_charging(self) -> int {
        if self.w < 0 {
            saturated_i32(-self.w)
        } else {
            0
        }
    }

    /// The power given out, zero while charging.
    pub open spec fn spec_discharging(self) -> int {
        if self.w > 0 {
            self.w as int
        } else {
            0
        }
    }

    pub fn charging(self) -> (out: Watts)
        ensures
            out.w == self.spec_charging(),
    {
        if self.w < 0 {
            Watts { w: saturate_i32(-(self.w as i128)) }
        } else {
            Watts::zero()
        }
    }

    pub fn discharging(self) -> (out: Watts)
        ensures
            out.w == self.spec_discharging(),
    {
        if self.w > 0 {
            Watts { w: self.w }
        } else {
            Watts::zero()
        }
    }

    /// The net of two flows that a device reports apart.
    pub fn from_flows(discharge: Watts, charge: Watts) -> (out: Self)
        ensures
            out.w == saturated_i32(discharge.w - charge.w),
    {
        BatteryPower { w: saturate_i32(discharge.w as i128 - charge.w as i128) }
    }
}

impl PowerCap {
    #[verifier::allow_in_spec]
    pub fn zero() -> Self
        returns
            (PowerCap { watts: 0 }),
    {
        PowerCap { watts: 0 }
    }

    pub fn new(watts: u32) -> (out: Self)
        ensures
            out.watts == watts,
    {
        PowerCap { watts }
    }

    pub fn get(self) -> (out: u32)
        ensures
            out == self.watts,
    {
        self.watts
    }

    /// The tighter of two caps.
    pub fn tighter(self, other: PowerCap) -> (out: Self)
        ensures
            out.watts == if self.watts <= other.watts {
                self.watts
            } else {
                other.watts
            },
    {
        if self.watts <= other.watts {
            self
        } else {
            other
        }
    }
}

impl PowerMargin {
    pub fn new(watts: u32) -> (out: Self)
        ensures
            out.watts == watts,
    {
        PowerMargin { watts }
    }
}

/// `x` moved into `[0, cap]`.
pub open spec fn within_cap(x: int, cap: PowerCap) -> int {
    if x < 0 {
        0
    } else if x > cap.watts {
        cap.watts as int
    } else {
        x
    }
}

impl Setpoint {
    #[verifier::allow_in_spec]
    pub fn zero() -> Self
        returns
            (Setpoint { watts: 0 }),
    {
        Setpoint { watts: 0 }
    }

    /// `watts`, or zero for a negative figure.
    pub fn new(watts: i32) -> (out: Self)
        ensures
            out.watts == if watts < 0 {
                0
            } else {
                watts as int
            },
    {
        if watts < 0 {
            Setpoint::zero()
        } else {
            Setpoint { watts: watts as u32 }
        }
    }

    pub fn get(self) -> (out: u32)
        ensures
            out == self.watts,
    {
        self.watts
    }

    /// `watts` moved into what `cap` allows.
    pub fn clamped(watts: i64, cap: PowerCap) -> (out: Self)
        ensures
            out.watts == within_cap(watts as int, cap),
    {
        if watts < 0 {
            Setpoint::zero()
        } else if watts > cap.watts as i64 {
            Setpoint { watts: cap.watts }
        } else {
            Setpoint { watts: watts as u32 }
        }
    }

    /// Three quarters of the figure, in whole watts.
    pub fn ramped(self) -> (out: Self)
        ensures
            out.watts == self.watts * 3 / 4,
    {
        Setpoint { watts: (self.watts as u64 * 3 / 4) as u32 }
    }
}

// --- charge --------------------------------------------------------------------

/// A state of charge, in whole percent.
#[derive(Debug, Clone, Copy, PartialEq, Eq, PartialOrd, Ord, Structural)]
pub struct Soc {
    percent: u32,
}

impl View for Soc {
    type V = int;

    closed spec fn view(&self) -> int {
        self.percent as int
    }
}

impl Soc {
    pub fn zero() -> (out: Self)
        ensures
            out@ == 0,
    {
        Soc { percent: 0 }
    }

    pub fn full() -> (out: Self)
        ensures
            out@ == 100,
    {
        Soc { percent: 100 }
    }

    #[verifier::type_invariant]
    spec fn at_most_full(self) -> bool {
        self.percent <= 100
    }

    /// `percent`, or full for anything above.
    pub fn new(percent: u32) -> (out: Self)
        ensures
            out@ == if percent > 100 {
                100
            } else {
                percent as int
            },
    {
        if percent > 100 {
            Soc { percent: 100 }
        } else {
            Soc { percent }
        }
    }

    pub fn get(self) -> (out: u32)
        ensures
            out == self@,
            out <= 100,
    {
        proof {
            use_type_invariant(&self);
        }
        self.percent
    }
}

// --- energy --------------------------------------------------------------------

/// How many parts a watt-hour has.
pub open spec fn parts_per_wh() -> int {
    7_200_000
}

/// An energy, in half watt-milliseconds: the grain in which the mean of two
/// whole-watt figures over a whole number of milliseconds is exact.
#[derive(Debug, Clone, Copy, PartialEq, Eq, PartialOrd, Ord, Structural)]
pub struct WattHours {
    pub parts: i128,
}

/// `x` moved into the range of an `i128`.
pub open spec fn saturated_i128(x: int) -> int {
    if x > i128::MAX {
        i128::MAX as int
    } else if x < i128::MIN {
        i128::MIN as int
    } else {
        x
    }
}

impl WattHours {
    #[verifier::allow_in_spec]
    pub fn zero() -> Self
        returns
            (WattHours { parts: 0 }),
    {
        WattHours { parts: 0 }
    }

    /// Whole watt-hours.
    pub fn from_wh(wh: i64) -> (out: Self)
        ensures
            out.parts == wh * parts_per_wh(),
    {
        WattHours { parts: wh as i128 * 7_200_000 }
    }

    /// Thousandths of a watt-hour.
    pub fn from_milli_wh(milli: i64) -> (out: Self)
        ensures
            out.parts * 1000 == milli * parts_per_wh(),
            out.parts == milli * 7200,
    {
        WattHours { parts: milli as i128 * 7200 }
    }

    /// What two power readings `dt` apart come to: their mean, over the time
    /// between them.
    pub open spec fn spec_integrate(from: Watts, to: Watts, dt: Duration) -> WattHours {
        WattHours { parts: ((from.w + to.w) * dt@) as i128 }
    }

    pub fn integrate(from: Watts, to: Watts, dt: Duration) -> (out: Self)
        ensures
            out == Self::spec_integrate(from, to, dt),
            out.parts == (from.w + to.w) * dt@,
    {
        let sum: i128 = from.w as i128 + to.w as i128;
        let ms: i128 = dt.as_millis() as i128;
        assert(-0x1_0000_0000 * 0x10_0000_0000_0000_0000_0000 <= sum * ms <= 0x1_0000_0000
            * 0x10_0000_0000_0000_0000_0000) by (nonlinear_arith)
            requires
                -0x1_0000_0000 <= sum <= 0x1_0000_0000,
                0 <= ms <= 0x10_0000_0000_0000_0000_0000,
        ;
        WattHours { parts: sum * ms }
    }

    pub open spec fn spec_plus(self, other: WattHours) -> WattHours {
        WattHours { parts: saturated_i128(self.parts + other.parts) as i128 }
    }

    /// The sum, or the most there is.
    pub fn plus(self, other: WattHours) -> (out: Self)
        ensures
            out == self.spec_plus(other),
    {
        match self.parts.checked_add(other.parts) {
            Some(parts) => WattHours { parts },
            None => {
                if self.parts > 0 {
                    WattHours { parts: i128::MAX }
                } else {
                    WattHours { parts: i128::MIN }
                }
            },
        }
    }

    /// The sum of a list, from its front.
    pub open spec fn spec_sum(items: Seq<WattHours>) -> WattHours
        decreases items.len(),
    {
        if items.len() == 0 {
            WattHours::zero()
        } else {
            Self::spec_sum(items.drop_last()).spec_plus(items.last())
        }
    }

    pub fn sum(items: &[WattHours]) -> (out: Self)
        ensures
            out == Self::spec_sum(items@),
    {
        let mut out = WattHours::zero();
        for i in 0..items.len()
            invariant
                out == Self::spec_sum(items@.take(i as int)),
        {
            out = out.plus(items[i]);
            proof {
                assert(items@.take(i + 1).drop_last() =~= items@.take(i as int));
            }
        }
        assert(items@.take(items@.len() as int) =~= items@);
        out
    }

    /// In whole millionths of a kilowatt-hour.
    pub open spec fn spec_micro_kwh(self) -> int {
        if self.parts < 0 {
            -((-self.parts) / 7200)
        } else {
            self.parts as int / 7200
        }
    }

    pub fn to_kwh(self) -> (out: KiloWattHours)
        ensures
            out@ == Some(self.spec_micro_kwh()),
    {
        if self.parts < 0 {
            let magnitude: u128 = if self.parts == i128::MIN {
                0x8000_0000_0000_0000_0000_0000_0000_0000
            } else {
                (-self.parts) as u128
            };
            KiloWattHours { micro: Some(-((magnitude / 7200) as i128)) }
        } else {
            KiloWattHours { micro: Some(self.parts / 7200) }
        }
    }

    /// In kilowatt-hours, with two decimals, of the nearest binary number. A
    /// negative figure keeps its sign.
    pub open spec fn spec_kwh_text(self) -> Seq<char> {
        if self.parts < 0 {
            seq!['-'] + text::with_hundredths(
                binary64::shown((-self.parts) as nat, 7_200_000_000, 100),
            )
        } else {
            text::with_hundredths(binary64::shown(self.parts as nat, 7_200_000_000, 100))
        }
    }

    /// Kilowatt-hours, with two decimals.
    pub fn kwh_text(self) -> (out: String)
        ensures
            out@ == self.spec_kwh_text(),
    {
        let mut out = String::new();
        if self.parts < 0 {
            out.push('-');
            let magnitude: u128 = if self.parts == i128::MIN {
                0x8000_0000_0000_0000_0000_0000_0000_0000
            } else {
                (-self.parts) as u128
            };
            text::push_with_hundredths(&mut out, binary64::show(magnitude, 7_200_000_000, 100));
            assert(out@ =~= self.spec_kwh_text());
        } else {
            text::push_with_hundredths(
                &mut out,
                binary64::show(self.parts as u128, 7_200_000_000, 100),
            );
            assert(out@ =~= self.spec_kwh_text());
        }
        out
    }
}

/// What a register counts up to, in millionths of a kilowatt-hour.
#[derive(Debug, Clone, Copy, PartialEq, Eq, PartialOrd, Ord, Structural)]
pub struct Register {
    pub micro: i64,
}

/// An energy as it is published, in millionths of a kilowatt-hour. None is no
/// number at all: what is reckoned with an efficiency that is none.
#[derive(Debug, Clone, Copy, PartialEq, Eq, PartialOrd, Ord, Structural)]
pub struct KiloWattHours {
    pub micro: Option<i128>,
}

impl View for KiloWattHours {
    type V = Option<int>;

    open spec fn view(&self) -> Option<int> {
        match self.micro {
            Some(micro) => Some(micro as int),
            None => None,
        }
    }
}

impl KiloWattHours {
    #[verifier::allow_in_spec]
    pub fn zero() -> Self
        returns
            (KiloWattHours { micro: Some(0) }),
    {
        KiloWattHours { micro: Some(0) }
    }

    /// With two decimals, of the nearest binary number. A negative figure keeps
    /// its sign.
    pub open spec fn spec_text(self) -> Seq<char> {
        match self.micro {
            None => "NaN"@,
            Some(micro) => if micro < 0 {
                seq!['-'] + text::with_hundredths(binary64::shown((-micro) as nat, 1_000_000, 100))
            } else {
                text::with_hundredths(binary64::shown(micro as nat, 1_000_000, 100))
            },
        }
    }

    pub fn to_string(&self) -> (out: String)
        ensures
            out@ == self.spec_text(),
    {
        let micro: i128 = match self.micro {
            None => {
                return "NaN".to_owned();
            },
            Some(micro) => micro,
        };
        let mut out = String::new();
        if micro < 0 {
            out.push('-');
            let magnitude: u128 = if micro == i128::MIN {
                0x8000_0000_0000_0000_0000_0000_0000_0000
            } else {
                (-micro) as u128
            };
            text::push_with_hundredths(&mut out, binary64::show(magnitude, 1_000_000, 100));
        } else {
            text::push_with_hundredths(&mut out, binary64::show(micro as u128, 1_000_000, 100));
        }
        assert(out@ =~= self.spec_text());
        out
    }
}

/// A percentage, in millionths of a percent. None is no number at all: the root
/// of less than nothing.
#[derive(Debug, Clone, Copy, PartialEq, Eq, PartialOrd, Ord, Structural)]
pub struct Percent {
    pub micro: Option<u64>,
}

impl View for Percent {
    type V = Option<int>;

    open spec fn view(&self) -> Option<int> {
        match self.micro {
            Some(micro) => Some(micro as int),
            None => None,
        }
    }
}

impl Percent {
    /// With one decimal, of the nearest binary number.
    pub open spec fn spec_text(self) -> Seq<char> {
        match self.micro {
            None => "NaN"@,
            Some(micro) => text::with_tenths(binary64::shown(micro as nat, 1_000_000, 10)),
        }
    }

    pub fn to_string(&self) -> (out: String)
        ensures
            out@ == self.spec_text(),
    {
        match self.micro {
            None => "NaN".to_owned(),
            Some(micro) => {
                let mut out = String::new();
                text::push_with_tenths(&mut out, binary64::show(micro as u128, 1_000_000, 10));
                assert(out@ =~= self.spec_text());
                out
            },
        }
    }
}

/// What part of the energy that goes in comes out, in thousandths of a
/// percent. Never above the whole.
#[derive(Debug, Clone, Copy, PartialEq, Eq, PartialOrd, Ord, Structural)]
pub struct Efficiency {
    milli_percent: u32,
}

impl View for Efficiency {
    type V = int;

    /// In thousandths of a percent.
    closed spec fn view(&self) -> int {
        self.milli_percent as int
    }
}

impl Efficiency {
    #[verifier::type_invariant]
    spec fn at_most_whole(self) -> bool {
        self.milli_percent <= 100_000
    }

    /// A percentage in thousandths, moved into the range from nothing to the
    /// whole.
    pub fn new(milli_percent: i64) -> (out: Self)
        ensures
            out@ == if milli_percent < 0 {
                0
            } else if milli_percent > 100_000 {
                100_000
            } else {
                milli_percent as int
            },
    {
        if milli_percent < 0 {
            Efficiency { milli_percent: 0 }
        } else if milli_percent > 100_000 {
            Efficiency { milli_percent: 100_000 }
        } else {
            Efficiency { milli_percent: milli_percent as u32 }
        }
    }

    pub fn milli_percent(self) -> (out: u32)
        ensures
            out == self@,
            out <= 100_000,
    {
        proof {
            use_type_invariant(&self);
        }
        self.milli_percent
    }
}

// --- temperature ---------------------------------------------------------------

/// A temperature as the device reports it, in tenths of a kelvin.
#[derive(Debug, Clone, Copy, PartialEq, Eq, PartialOrd, Ord, Structural)]
pub struct DeciKelvin {
    pub tenths: u32,
}

impl DeciKelvin {
    /// How far above freezing, in degrees Celsius: a fraction. The reading lies
    /// half way between two tenths, and the binary numbers on the way here move
    /// it to one side.
    pub open spec fn spec_celsius(self) -> (int, nat) {
        binary64::difference(
            binary64::nearest(self.tenths as nat, 10),
            binary64::nearest(27_315, 100),
        )
    }

    /// In degrees Celsius with one decimal. Below zero, a minus sign.
    pub open spec fn spec_celsius_text(self) -> Seq<char> {
        let (above, den) = self.spec_celsius();
        if above < 0 {
            seq!['-'] + text::with_tenths(binary64::shown((-above) as nat, den, 10))
        } else {
            text::with_tenths(binary64::shown(above as nat, den, 10))
        }
    }

    pub fn celsius_text(self) -> (out: String)
        ensures
            out@ == self.spec_celsius_text(),
    {
        let (reading, finer) = binary64::find_nearest(self.tenths as u128, 10);
        let (freezing, den) = binary64::find_nearest(27_315, 100);
        proof {
            assert(den <= 0x1_0000_0000_0000) by (nonlinear_arith)
                requires
                    den == 1 || den * 27_315 <= 100 * 0x20_0000_0000_0000,
            ;
            assert(finer <= 0x200_0000_0000_0000) by (nonlinear_arith)
                requires
                    finer == 1 || (self.tenths >= 1 && finer * self.tenths <= 10
                        * 0x20_0000_0000_0000),
            ;
            assert(freezing * (finer / den) <= 0x20_0000_0000_0000 * 0x200_0000_0000_0000)
                by (nonlinear_arith)
                requires
                    freezing <= 0x20_0000_0000_0000,
                    finer <= 0x200_0000_0000_0000,
                    den >= 2,
            ;
            assert(reading * (den / finer) <= 0x20_0000_0000_0000 * 0x1_0000_0000_0000)
                by (nonlinear_arith)
                requires
                    reading <= 0x20_0000_0000_0000,
                    den <= 0x1_0000_0000_0000,
                    finer >= 1,
            ;
        }
        let (high, low, parts): (u128, u128, u128) = if finer >= den {
            (reading, freezing * (finer / den), finer)
        } else {
            (reading * (den / finer), freezing, den)
        };
        let mut out = String::new();
        if high < low {
            out.push('-');
            text::push_with_tenths(&mut out, binary64::show(low - high, parts, 10));
        } else {
            text::push_with_tenths(&mut out, binary64::show(high - low, parts, 10));
        }
        assert(out@ =~= self.spec_celsius_text());
        out
    }
}

// --- retention -----------------------------------------------------------------

/// How many days journal rows are kept. At least one: zero would delete the
/// journal as it is written.
#[derive(Debug, Clone, Copy, PartialEq, Eq, PartialOrd, Ord, Structural)]
pub struct RetentionDays {
    days: i64,
}

impl View for RetentionDays {
    type V = int;

    closed spec fn view(&self) -> int {
        self.days as int
    }
}

impl RetentionDays {
    #[verifier::type_invariant]
    spec fn at_least_one(self) -> bool {
        self.days >= 1
    }

    pub fn new(days: i64) -> (out: Option<Self>)
        ensures
            out is Some <==> days >= 1,
            out matches Some(retention) ==> retention@ == days,
    {
        if days >= 1 {
            Some(RetentionDays { days })
        } else {
            None
        }
    }

    pub fn get(self) -> (out: i64)
        ensures
            out == self@,
            out >= 1,
    {
        proof {
            use_type_invariant(&self);
        }
        self.days
    }

    /// Rows dated before this instant are beyond the window.
    pub fn cutoff(self, now: Timestamp) -> (out: Timestamp)
        ensures
            out.ms == saturated_i64(now.ms - self@ * 86_400_000),
    {
        proof {
            use_type_invariant(&self);
        }
        Timestamp { ms: saturate_i64(now.ms as i128 - self.days as i128 * 86_400_000) }
    }
}

// --- laws ----------------------------------------------------------------------

/// A figure that is moved into a range lies in it, and one that lay in it stays.
pub proof fn saturation_keeps_what_fits(x: int)
    ensures
        i32::MIN <= saturated_i32(x) <= i32::MAX,
        i64::MIN <= saturated_i64(x) <= i64::MAX,
        i128::MIN <= saturated_i128(x) <= i128::MAX,
        i32::MIN <= x <= i32::MAX ==> saturated_i32(x) == x,
        i64::MIN <= x <= i64::MAX ==> saturated_i64(x) == x,
        i128::MIN <= x <= i128::MAX ==> saturated_i128(x) == x,
        x >= 0 ==> 0 <= saturated_i32(x) <= x && 0 <= saturated_i64(x) <= x && 0
            <= saturated_i128(x) <= x,
        x <= 0 ==> x <= saturated_i32(x) <= 0 && x <= saturated_i64(x) <= 0 && x
            <= saturated_i128(x) <= 0,
{
}

/// A larger figure is not moved below a smaller one.
pub proof fn saturation_keeps_order(x: int, y: int)
    requires
        x <= y,
    ensures
        saturated_i32(x) <= saturated_i32(y),
        saturated_i64(x) <= saturated_i64(y),
        saturated_i128(x) <= saturated_i128(y),
{
}

/// The whole watts of a figure in milliwatts leave less than a watt of it, on the side
/// away from zero.
pub proof fn whole_watts_leave_less_than_one(mw: int)
    ensures
        mw >= 0 ==> 0 <= mw - truncated_watts(mw) * 1000 < 1000,
        mw <= 0 ==> -1000 < mw - truncated_watts(mw) * 1000 <= 0,
{
}

/// What a meter reads is import above zero and export below, and a whole watt of the one
/// is a whole watt less of the other.
pub proof fn import_is_the_contrary_of_export(grid: GridPower)
    requires
        -2_147_483_647_000 <= grid.mw <= 2_147_483_647_000,
    ensures
        -1000 < grid.mw - grid.spec_importing() * 1000 < 1000,
        grid.mw >= 1000 ==> grid.spec_importing() > 0,
        grid.mw <= -1000 ==> grid.spec_importing() < 0,
        grid.spec_exporting() == -grid.spec_importing(),
{
}

/// A power is split into what goes in and what comes out: at most one of them is not
/// zero, and their difference is the power.
pub proof fn a_battery_charges_or_discharges(power: BatteryPower)
    requires
        power.w > i32::MIN,
    ensures
        power.spec_discharging() - power.spec_charging() == power.w,
        power.spec_discharging() >= 0,
        power.spec_charging() >= 0,
        power.spec_discharging() == 0 || power.spec_charging() == 0,
{
}

/// The most power that can be taken in is the largest there is.
pub proof fn the_deepest_charge_is_the_largest_figure()
    ensures
        (BatteryPower { w: i32::MIN }).spec_charging() == i32::MAX,
        (BatteryPower { w: i32::MIN }).spec_discharging() == 0,
{
}

/// What is commanded lies between nothing and the cap, and is what was asked for where
/// that does.
pub proof fn a_cap_is_kept(x: int, cap: PowerCap)
    ensures
        0 <= within_cap(x, cap) <= cap.watts,
        0 <= x <= cap.watts ==> within_cap(x, cap) == x,
        x <= 0 ==> within_cap(x, cap) == 0,
        x >= cap.watts ==> within_cap(x, cap) == cap.watts,
{
}

/// A power that is held over a time comes to their product, and one that changes evenly
/// to that of its mean.
pub proof fn energy_is_mean_power_over_time(from: Watts, to: Watts, dt: Duration)
    ensures
        WattHours::spec_integrate(from, to, dt).parts * 2 * 3_600_000 == (from.w + to.w) * dt@
            * parts_per_wh(),
        dt@ == 3_600_000 && from == to ==> WattHours::spec_integrate(from, to, dt).parts == from.w
            * parts_per_wh(),
{
    let sum = from.w + to.w;
    let ms = dt@;
    assert(-0x1_0000_0000 * 0x10_0000_0000_0000_0000_0000 <= sum * ms <= 0x1_0000_0000
        * 0x10_0000_0000_0000_0000_0000) by (nonlinear_arith)
        requires
            -0x1_0000_0000 <= sum <= 0x1_0000_0000,
            0 <= ms <= 0x10_0000_0000_0000_0000_0000,
    ;
    if ms == 3_600_000 && from == to {
        assert(sum * ms == from.w * 7_200_000) by (nonlinear_arith)
            requires
                sum == 2 * from.w,
                ms == 3_600_000,
        ;
    }
}

/// The sum of two energies is theirs, or the nearest that can be held.
pub proof fn energies_add_up(a: WattHours, b: WattHours)
    ensures
        i128::MIN <= a.parts + b.parts <= i128::MAX ==> a.spec_plus(b).parts == a.parts + b.parts,
        a.parts + b.parts > i128::MAX ==> a.spec_plus(b).parts == i128::MAX,
        a.parts + b.parts < i128::MIN ==> a.spec_plus(b).parts == i128::MIN,
{
}

/// A sum of energies is that of its parts: one alone is itself, and two lists together
/// come to what each comes to. Where the whole is too large, it is the most there is.
pub proof fn a_sum_is_that_of_its_parts(a: Seq<WattHours>, b: Seq<WattHours>)
    requires
        forall|i: int| 0 <= i < a.len() ==> (#[trigger] a[i]).parts >= 0,
        forall|i: int| 0 <= i < b.len() ==> (#[trigger] b[i]).parts >= 0,
    ensures
        WattHours::spec_sum(a + b).parts == saturated_i128(
            WattHours::spec_sum(a).parts + WattHours::spec_sum(b).parts,
        ),
        WattHours::spec_sum(b).parts >= 0,
        a.len() == 1 ==> WattHours::spec_sum(a) == a[0],
        a.len() == 0 ==> WattHours::spec_sum(a).parts == 0,
    decreases b.len(),
{
    if a.len() == 1 {
        assert(WattHours::spec_sum(a.drop_last()).parts == 0);
    }
    if b.len() == 0 {
        assert(a + b =~= a);
    } else {
        a_sum_is_that_of_its_parts(a, b.drop_last());
        assert((a + b).drop_last() =~= a + b.drop_last());
        assert((a + b).last() == b.last());
        assert(b[b.len() - 1].parts >= 0);
        a_sum_of_none_is_lost(a);
    }
}

proof fn a_sum_of_none_is_lost(a: Seq<WattHours>)
    requires
        forall|i: int| 0 <= i < a.len() ==> (#[trigger] a[i]).parts >= 0,
    ensures
        WattHours::spec_sum(a).parts >= 0,
    decreases a.len(),
{
    if a.len() > 0 {
        a_sum_of_none_is_lost(a.drop_last());
        assert(a[a.len() - 1].parts >= 0);
    }
}

/// A thousand watt-hours are one kilowatt-hour: a million of its millionths.
pub proof fn a_kilowatt_hour_is_a_thousand_watt_hours(energy: WattHours, wh: int)
    requires
        energy.parts == wh * parts_per_wh(),
    ensures
        energy.spec_micro_kwh() == wh * 1000,
{
    if wh < 0 {
        assert((-(wh * 7_200_000)) / 7200 == -wh * 1000);
    } else {
        assert((wh * 7_200_000) / 7200 == wh * 1000);
    }
}

/// Energies are published in hundredths of a kilowatt-hour: to the nearest, or to one of
/// the two nearest. What is below zero has a minus sign.
pub proof fn an_energy_is_published_to_the_hundredth(energy: KiloWattHours, micro: i128) -> (
    hundredths: nat)
    requires
        energy.micro == Some(micro),
        -1_000_000_000_000 <= micro <= 1_000_000_000_000,
    ensures
        micro >= 0 ==> energy.spec_text() == text::with_hundredths(hundredths) && -5_000
            <= hundredths * 10_000 - micro <= 5_000,
        micro < 0 ==> energy.spec_text() == seq!['-'] + text::with_hundredths(hundredths) && -5_000
            <= hundredths * 10_000 + micro <= 5_000,
{
    let magnitude = if micro < 0 {
        (-micro) as nat
    } else {
        micro as nat
    };
    binary64::what_is_shown_is_the_nearest(magnitude, 1_000_000, 100);
    binary64::shown(magnitude, 1_000_000, 100)
}

/// A total is written in hundredths of a kilowatt-hour: to the nearest, but for what the
/// nearest binary number is away from it.
pub proof fn a_total_is_written_to_the_hundredth(energy: WattHours) -> (hundredths: nat)
    requires
        -36_000_000_000_000 <= energy.parts <= 36_000_000_000_000,
    ensures
        energy.parts >= 0 ==> energy.spec_kwh_text() == text::with_hundredths(hundredths)
            && -36_000_000 <= hundredths * 72_000_000 - energy.parts <= 36_000_000,
        energy.parts < 0 ==> energy.spec_kwh_text() == seq!['-'] + text::with_hundredths(
            hundredths,
        ) && -36_000_000 <= hundredths * 72_000_000 + energy.parts <= 36_000_000,
{
    let magnitude = if energy.parts < 0 {
        (-energy.parts) as nat
    } else {
        energy.parts as nat
    };
    binary64::what_is_shown_is_the_nearest(magnitude, 7_200_000_000, 100);
    binary64::shown(magnitude, 7_200_000_000, 100)
}

/// A percentage is published to the tenth: to the nearest, or to one of the two nearest.
pub proof fn a_percentage_is_published_to_the_tenth(percent: Percent, micro: u64) -> (tenths: nat)
    requires
        percent.micro == Some(micro),
        micro <= 100_000_000_000,
    ensures
        percent.spec_text() == text::with_tenths(tenths),
        -50_000 <= tenths * 100_000 - micro <= 50_000,
{
    binary64::what_is_shown_is_the_nearest(micro as nat, 1_000_000, 10);
    binary64::shown(micro as nat, 1_000_000, 10)
}

/// What is no number is published as such.
pub proof fn what_is_no_number_is_published_as_such()
    ensures
        (KiloWattHours { micro: None }).spec_text() == "NaN"@,
        (Percent { micro: None }).spec_text() == "NaN"@,
{
}

/// A reading in tenths of a kelvin is shown in degrees Celsius, which begin at 273.15 K:
/// as one of the two tenths next to it, with a minus sign below that point.
pub proof fn degrees_begin_at_the_freezing_point(reading: DeciKelvin) -> (tenths: nat)
    ensures
        reading.tenths <= 2731 ==> reading.spec_celsius_text() == seq!['-'] + text::with_tenths(
            tenths,
        ) && (tenths == 2731 - reading.tenths || tenths == 2732 - reading.tenths),
        reading.tenths >= 2732 ==> reading.spec_celsius_text() == text::with_tenths(tenths) && (
        tenths == reading.tenths - 2731 || tenths == reading.tenths - 2732),
{
    let n = reading.tenths as nat;
    let a = binary64::nearest(n, 10);
    let b = binary64::nearest(27_315, 100);
    let (above, den) = reading.spec_celsius();
    let big = 0x20_0000_0000_0000int;
    binary64::the_nearest_is_near(n, 10);
    binary64::the_nearest_is_near(27_315, 100);
    binary64::a_difference_is_exact(n, 10, 27_315, 100);
    let q = a.1 * b.1;
    assert(q >= 1) by (nonlinear_arith)
        requires
            q == a.1 * b.1,
            a.1 >= 1,
            b.1 >= 1,
    ;
    // A hundred times the difference, over the lower parts of both.
    let off = 100 * (a.0 * b.1 - b.0 * a.1) - (10 * n - 27_315) * q;
    let first = a.0 * 10 - n * a.1;
    let second = b.0 * 100 - 27_315 * b.1;
    assert(off == 10 * (first * b.1) - second * a.1) by (nonlinear_arith)
        requires
            off == 100 * (a.0 * b.1 - b.0 * a.1) - (10 * n - 27_315) * q,
            first == a.0 * 10 - n * a.1,
            second == b.0 * 100 - 27_315 * b.1,
            q == a.1 * b.1,
    ;
    assert(-(n * q) <= (first * b.1) * big <= n * q) by (nonlinear_arith)
        requires
            -(n * a.1) <= first * big <= n * a.1,
            b.1 >= 1,
            q == a.1 * b.1,
    ;
    assert(-(27_315 * q) <= (second * a.1) * big <= 27_315 * q) by (nonlinear_arith)
        requires
            -(27_315 * b.1) <= second * big <= 27_315 * b.1,
            a.1 >= 1,
            q == a.1 * b.1,
    ;
    let slack = 10 * n + 27_315;
    assert(slack * q == 10 * (n * q) + 27_315 * q) by (nonlinear_arith)
        requires
            slack == 10 * n + 27_315,
    ;
    assert(-(slack * q) <= off * big <= slack * q);
    // The same of the difference itself.
    let centre = 10 * n - 27_315;
    let gap = 100 * above - centre * den;
    let both = a.0 * b.1 - b.0 * a.1;
    assert((gap * big) * q == (off * big) * den) by (nonlinear_arith)
        requires
            gap == 100 * above - centre * den,
            off == 100 * both - centre * q,
            above * q == both * den,
    ;
    bounded_alike(gap * big, off * big, slack as int, q as int, den as int);
    // Less than a thousandth of the lower part.
    assert(slack * den <= 50_000_000_000 * den) by (nonlinear_arith)
        requires
            slack <= 50_000_000_000,
            den >= 1,
    ;
    assert(-(den as int) < 1000 * gap < den);
    if n >= 2732 {
        let whole = (n - 2732) as nat;
        assert(centre == 10 * whole + 5);
        assert((10 * whole + 5) * den >= 5 * den) by (nonlinear_arith)
            requires
                den >= 1,
                whole >= 0,
        ;
        near_the_tenth(above as nat, den, whole, gap);
        binary64::shown(above as nat, den, 10)
    } else {
        let whole = (2731 - n) as nat;
        assert(centre == -(10 * whole + 5));
        assert((10 * whole + 5) * den >= 5 * den) by (nonlinear_arith)
            requires
                den >= 1,
                whole >= 0,
        ;
        assert(centre * den == -((10 * whole + 5) * den)) by (nonlinear_arith)
            requires
                centre == -(10 * whole + 5),
        ;
        near_the_tenth((-above) as nat, den, whole, -gap);
        binary64::shown((-above) as nat, den, 10)
    }
}

/// What is in proportion to a bounded figure is bounded alike.
proof fn bounded_alike(x: int, y: int, slack: int, q: int, den: int)
    requires
        x * q == y * den,
        -(slack * q) <= y <= slack * q,
        q >= 1,
        den >= 1,
    ensures
        -(slack * den) <= x <= slack * den,
{
    let most = slack * den;
    assert(most * q == (slack * q) * den) by (nonlinear_arith)
        requires
            most == slack * den,
    ;
    lemma_mul_inequality(y, slack * q, den);
    lemma_mul_inequality(-(slack * q), y, den);
    assert((-(slack * q)) * den == -((slack * q) * den)) by (nonlinear_arith);
    assert((-most) * q == -(most * q)) by (nonlinear_arith);
    lemma_mul_inequality_converse(x, most, q);
    lemma_mul_inequality_converse(-most, x, q);
}

/// A fraction next to the middle of two tenths is shown as one of them.
proof fn near_the_tenth(top: nat, den: nat, tenths: nat, gap: int)
    requires
        den >= 1,
        tenths <= 0x1_0000_0000,
        100 * top == (10 * tenths + 5) * den + gap,
        -(den as int) < 1000 * gap < den,
    ensures
        binary64::shown(top, den, 10) == tenths || binary64::shown(top, den, 10) == tenths + 1,
{
    let s = binary64::shown(top, den, 10);
    binary64::what_is_shown_is_near(top, den, 10);
    let big = 0x20_0000_0000_0000int;
    let whole = tenths * den;
    assert((10 * tenths + 5) * den == 10 * whole + 5 * den) by (nonlinear_arith)
        requires
            whole == tenths * den,
    ;
    assert(whole <= 0x1_0000_0000 * den) by (nonlinear_arith)
        requires
            whole == tenths * den,
            tenths <= 0x1_0000_0000,
    ;
    // What is shown lies within half a tenth and a little.
    let shown = s * den;
    let away = 2 * shown - 2 * (top * 10);
    assert(100 * top <= 10 * whole + 6 * den);
    assert(10 * (top * 10) <= 10 * (0x1_0000_0000 * den) + 6 * den);
    assert(2 * (top * 10) <= 3 * (0x1_0000_0000 * den));
    assert(-1001 * den <= 1000 * away <= 1001 * den);
    assert(-1500 * den < 2000 * (shown - whole) < 3500 * den);
    assert(shown - whole == (s - tenths) * den) by (nonlinear_arith)
        requires
            shown == s * den,
            whole == tenths * den,
    ;
    let k = s - tenths;
    assert(0 <= k <= 1) by (nonlinear_arith)
        requires
            -1500 * den < 2000 * (k * den) < 3500 * den,
            den >= 1,
    ;
}

/// Rows are kept for whole days: the instant before which they go lies as many days
/// back, or is the earliest there is.
pub proof fn rows_are_kept_for_whole_days(retention: RetentionDays, now: Timestamp, out: Timestamp)
    requires
        call_ensures(RetentionDays::cutoff, (retention, now), out),
    ensures
        now.ms - retention@ * 24 * 60 * 60 * 1000 >= i64::MIN && retention@ >= 1 ==> out.ms
            == now.ms - retention@ * 24 * 60 * 60 * 1000,
        now.ms - retention@ * 24 * 60 * 60 * 1000 < i64::MIN ==> out.ms == i64::MIN,
{
}

/// What a battery contributes is taken back out of a reading: what it gives is demand
/// that the meter does not see, what it takes is none of the house.
pub proof fn a_battery_is_taken_out_of_a_reading(grid: GridPower, battery: BatteryPower,
    out: GridPower)
    requires
        call_ensures(GridPower::plus_battery, (grid, battery), out),
        i64::MIN <= grid.mw + battery.w * 1000 <= i64::MAX,
    ensures
        out.mw - grid.mw == 1000 * battery.w,
{
}

/// Two flows that are reported apart come to what goes out less what goes in.
pub proof fn the_net_of_two_flows(discharge: Watts, charge: Watts, out: BatteryPower)
    requires
        call_ensures(BatteryPower::from_flows, (discharge, charge), out),
        discharge.w >= 0,
        charge.w >= 0,
    ensures
        out.w + charge.w == discharge.w,
{
}

/// A ramped figure is the largest whole number of watts that four times makes no more
/// than three of the figure.
pub proof fn a_ramp_is_three_quarters(setpoint: Setpoint, out: Setpoint)
    requires
        call_ensures(Setpoint::ramped, (setpoint,), out),
    ensures
        4 * out.watts <= 3 * setpoint.watts < 4 * (out.watts + 1),
{
}

/// The instant a span before another is as far from it as the span is long.
pub proof fn a_span_lies_between_its_ends(at: Timestamp, span: Duration, out: Timestamp)
    requires
        call_ensures(Timestamp::minus, (at, span), out),
        at.ms - (span.secs * 1000 + span.millis) >= i64::MIN,
    ensures
        at.ms - out.ms == span.secs * 1000 + span.millis,
{
}

/// Spans add up in milliseconds, or come to the longest there is.
pub proof fn spans_add_up(a: Duration, b: Duration)
    ensures
        a.secs * 1000 + a.millis + b.secs * 1000 + b.millis < (u64::MAX + 1) * 1000 ==> {
            let sum = a.spec_plus(b);
            sum.secs * 1000 + sum.millis == a.secs * 1000 + a.millis + b.secs * 1000 + b.millis
                && sum.millis < 1000
        },
        a.secs * 1000 + a.millis + b.secs * 1000 + b.millis >= (u64::MAX + 1) * 1000
            ==> a.spec_plus(b) == (Duration { secs: u64::MAX, millis: 999 }),
{
}

} // verus!
