//! A simulated battery with an integrating energy model, so that the controller
//! can run against no hardware at all.
//!
//! It keeps its own store of energy and integrates power over time: a setpoint
//! that would overcharge the pack hits a ceiling, and an empty battery stops
//! discharging. What is lost on the way in and on the way out is never rounded
//! in the battery's favour.

use vstd::prelude::*;

use crate::battery::BatteryState;
use crate::command::Command;
use crate::device::{
    BatteryController, BatteryMonitor, BatteryReading, BatterySpec, BatteryTelemetry, PollError,
};
use crate::units::{
    saturate_i32, saturated_i32, within_cap, BatteryPower, Efficiency, Setpoint, Soc, Timestamp, WattHours,
};
use crate::world::DeviceId;

verus! {

/// What is fixed when a battery is made. Energy is counted in the parts of a
/// [`WattHours`], efficiency in thousandths of a percent.
pub struct Build {
    pub spec: BatterySpec,
    pub capacity: int,
    pub charge_efficiency: int,
    pub discharge_efficiency: int,
}

/// What changes with every command and every look.
pub struct Charge {
    pub stored: int,
    /// Positive while discharging, negative while charging.
    pub power: int,
    /// The instant that this holds for.
    pub last: int,
    pub standby: bool,
}

/// The nearest whole number, halves up.
pub open spec fn nearest(num: int, den: int) -> int {
    (2 * num + den) / (2 * den)
}

/// The least whole number that is not below.
pub open spec fn ceiling(num: int, den: int) -> int {
    (num + den - 1) / den
}

/// The energy that a flow moves at the meter.
pub open spec fn moved(watts: int, dt: int) -> int {
    2 * watts * dt
}

/// A charge held for `dt` milliseconds. Some of what is drawn is lost before it
/// lands, and a pack that fills up took less than it was told to.
pub open spec fn charged(build: Build, charge: Charge, dt: int) -> Charge {
    let landed = moved(-charge.power, dt) * build.charge_efficiency;
    if build.charge_efficiency == 0 {
        Charge { power: 0, ..charge }
    } else if charge.stored + ceiling(landed, 100_000) <= build.capacity {
        Charge { stored: charge.stored + landed / 100_000, ..charge }
    } else {
        Charge {
            stored: build.capacity,
            power: -nearest(
                (build.capacity - charge.stored) * 100_000,
                moved(build.charge_efficiency, dt),
            ),
            ..charge
        }
    }
}

/// A discharge held for `dt` milliseconds. The pack gives up more than it
/// delivers, and one that runs empty delivered less than it was told to.
pub open spec fn discharged(build: Build, charge: Charge, dt: int) -> Charge {
    let lost = ceiling(moved(charge.power, dt) * 100_000, build.discharge_efficiency);
    if build.discharge_efficiency == 0 {
        Charge { stored: 0, power: 0, ..charge }
    } else if lost <= charge.stored {
        Charge { stored: charge.stored - lost, ..charge }
    } else {
        Charge {
            stored: 0,
            power: nearest(
                charge.stored * build.discharge_efficiency,
                moved(100_000, dt),
            ),
            ..charge
        }
    }
}

/// The battery at a later instant. The flow it reports is the one it achieved,
/// which a pack that is full or empty makes less than the one commanded.
pub open spec fn advanced(build: Build, charge: Charge, now: int) -> Charge {
    let dt = now - charge.last;
    if dt <= 0 {
        charge
    } else if charge.power < 0 {
        Charge { last: now, ..charged(build, charge, dt) }
    } else if charge.power > 0 {
        Charge { last: now, ..discharged(build, charge, dt) }
    } else {
        Charge { last: now, ..charge }
    }
}

/// The flow that a command asks for, within what the box can do.
pub open spec fn commanded(spec: BatterySpec, command: Command) -> int {
    match command {
        Command::SetCharge(setpoint) => -saturated_i32(
            within_cap(setpoint.watts as int, spec.max_charge_power),
        ),
        Command::SetDischarge(setpoint) => saturated_i32(
            within_cap(setpoint.watts as int, spec.max_discharge_power),
        ),
        Command::SetIdle | Command::SetStandby => 0,
    }
}

/// The battery once a command is installed. The old one counts up to that
/// moment.
pub open spec fn told(build: Build, charge: Charge, now: int, command: Command) -> Charge {
    Charge {
        power: commanded(build.spec, command),
        standby: command is SetStandby,
        ..advanced(build, charge, now)
    }
}

/// How full a pack is, in whole percent. One without any capacity is empty.
pub open spec fn percent_full(stored: int, capacity: int) -> int {
    if capacity == 0 {
        0
    } else {
        nearest(100 * stored, capacity)
    }
}

/// Between empty and full.
pub open spec fn fits(build: Build, charge: Charge) -> bool {
    &&& 0 <= charge.stored <= build.capacity
    &&& 0 <= build.charge_efficiency <= 100_000
    &&& 0 <= build.discharge_efficiency <= 100_000
}

// --- arithmetic ----------------------------------------------------------------

proof fn nearest_at_most(num: int, den: int, bound: int)
    requires
        den > 0,
        num <= bound * den,
    ensures
        nearest(num, den) <= bound,
{
    assert((2 * num + den) / (2 * den) <= bound) by (nonlinear_arith)
        requires
            den > 0,
            num <= bound * den,
    ;
}

proof fn nearest_not_negative(num: int, den: int)
    requires
        den > 0,
        num >= 0,
    ensures
        nearest(num, den) >= 0,
{
    assert((2 * num + den) / (2 * den) >= 0) by (nonlinear_arith)
        requires
            den > 0,
            num >= 0,
    ;
}

/// A quotient, by its two bounds.
proof fn quotient_is(num: int, den: int, q: int)
    requires
        den > 0,
        q * den <= num < (q + 1) * den,
    ensures
        num / den == q,
{
    assert(num / den == q) by (nonlinear_arith)
        requires
            den > 0,
            q * den <= num < (q + 1) * den,
    ;
}

/// What lands, against what was drawn.
proof fn gained_bounds(power: int, dt: int, efficiency: int)
    requires
        0 <= power <= 0x8000_0000,
        0 < dt <= 0x1_0000_0000_0000_0000,
        0 <= efficiency <= 100_000,
    ensures
        0 <= moved(power, dt) <= 0x1_0000_0000_0000_0000_0000_0000,
        0 <= moved(power, dt) * efficiency <= 0x1_0000_0000_0000_0000_0000_0000 * 100_000,
        0 <= moved(power, dt) * efficiency / 100_000 <= moved(power, dt),
        moved(power, dt) * efficiency / 100_000 * 100_000 <= moved(power, dt) * efficiency,
{
    let m = moved(power, dt);
    assert(0 <= 2 * power * dt <= 2 * 0x8000_0000 * 0x1_0000_0000_0000_0000) by (nonlinear_arith)
        requires
            0 <= power <= 0x8000_0000,
            0 < dt <= 0x1_0000_0000_0000_0000,
    ;
    assert(0 <= m * efficiency <= m * 100_000) by (nonlinear_arith)
        requires
            m >= 0,
            0 <= efficiency <= 100_000,
    ;
}

/// What is given up, against what is delivered.
proof fn lost_bounds(power: int, dt: int, efficiency: int)
    requires
        0 <= power <= 0x8000_0000,
        0 < dt <= 0x1_0000_0000_0000_0000,
        0 < efficiency <= 100_000,
    ensures
        ({
            let lost = ceiling(moved(power, dt) * 100_000, efficiency);
            &&& 0 <= moved(power, dt) <= 0x1_0000_0000_0000_0000_0000_0000
            &&& moved(power, dt) * 100_000 <= lost * efficiency
            &&& (lost - 1) * efficiency < moved(power, dt) * 100_000
            &&& 0 <= lost
        }),
{
    gained_bounds(power, dt, efficiency);
    let num = moved(power, dt) * 100_000;
    let lost = ceiling(num, efficiency);
    assert(num <= lost * efficiency && (lost - 1) * efficiency < num && 0 <= lost)
        by (nonlinear_arith)
        requires
            efficiency > 0,
            num >= 0,
            lost == (num + efficiency - 1) / efficiency,
    ;
}

// --- laws ----------------------------------------------------------------------

/// However long a battery is left alone, and whatever it was told, it never
/// holds less than nothing nor more than fits, and its flow never exceeds the
/// one it was told.
pub proof fn a_pack_stays_within_its_capacity(build: Build, charge: Charge, now: int)
    requires
        fits(build, charge),
        -0x8000_0000 <= charge.power <= 0x7fff_ffff,
        now - charge.last <= 0x1_0000_0000_0000_0000,
    ensures
        fits(build, advanced(build, charge, now)),
        charge.power <= 0 ==> charge.power <= advanced(build, charge, now).power <= 0,
        charge.power >= 0 ==> 0 <= advanced(build, charge, now).power <= charge.power,
{
    let dt = now - charge.last;
    if dt > 0 && charge.power < 0 && build.charge_efficiency > 0 {
        let e = build.charge_efficiency;
        let p = -charge.power;
        gained_bounds(p, dt, e);
        let room = build.capacity - charge.stored;
        if ceiling(moved(p, dt) * e, 100_000) > room {
            let den = moved(e, dt);
            assert(den > 0 && p * den == moved(p, dt) * e) by (nonlinear_arith)
                requires
                    e > 0,
                    dt > 0,
                    den == 2 * e * dt,
                    moved(p, dt) == 2 * p * dt,
            ;
            nearest_at_most(room * 100_000, den, p);
            nearest_not_negative(room * 100_000, den);
        }
    } else if dt > 0 && charge.power > 0 && build.discharge_efficiency > 0 {
        let e = build.discharge_efficiency;
        let p = charge.power;
        lost_bounds(p, dt, e);
        let lost = ceiling(moved(p, dt) * 100_000, e);
        if lost > charge.stored {
            let den = moved(100_000, dt);
            assert(0 <= charge.stored * e <= (lost - 1) * e) by (nonlinear_arith)
                requires
                    0 <= charge.stored <= lost - 1,
                    e > 0,
            ;
            assert(p * den == moved(p, dt) * 100_000) by (nonlinear_arith)
                requires
                    den == 2 * 100_000 * dt,
                    moved(p, dt) == 2 * p * dt,
            ;
            nearest_at_most(charge.stored * e, den, p);
            nearest_not_negative(charge.stored * e, den);
        }
    }
}

/// No time, no energy.
pub proof fn no_elapsed_time_mints_nothing(build: Build, charge: Charge)
    ensures
        advanced(build, charge, charge.last) == charge,
{
}

/// A full pack that is told to charge reports that it takes nothing, and an
/// empty one that is told to discharge that it delivers nothing, as soon as any
/// time has passed.
pub proof fn a_pack_at_its_limit_reports_no_flow(build: Build, charge: Charge, now: int)
    requires
        fits(build, charge),
        now > charge.last,
    ensures
        charge.power < 0 && charge.stored == build.capacity ==> advanced(build, charge, now)
            == (Charge { power: 0, last: now, ..charge }),
        charge.power > 0 && charge.stored == 0 ==> advanced(build, charge, now) == (Charge {
            power: 0,
            last: now,
            ..charge
        }),
{
    let dt = now - charge.last;
    if charge.power < 0 && charge.stored == build.capacity && build.charge_efficiency > 0 {
        let e = build.charge_efficiency;
        let den = moved(e, dt);
        let landed = moved(-charge.power, dt) * e;
        assert(den > 0 && landed > 0) by (nonlinear_arith)
            requires
                e > 0,
                dt > 0,
                charge.power < 0,
                den == 2 * e * dt,
                landed == 2 * -charge.power * dt * e,
        ;
        quotient_is(den, 2 * den, 0);
    }
    if charge.power > 0 && charge.stored == 0 && build.discharge_efficiency > 0 {
        let e = build.discharge_efficiency;
        let num = moved(charge.power, dt) * 100_000;
        assert(num > 0) by (nonlinear_arith)
            requires
                num == 2 * charge.power * dt * 100_000,
                charge.power > 0,
                dt > 0,
        ;
        assert(ceiling(num, e) > 0) by (nonlinear_arith)
            requires
                num > 0,
                e > 0,
                ceiling(num, e) == (num + e - 1) / e,
        ;
        assert(charge.stored * e == 0) by (nonlinear_arith)
            requires
                charge.stored == 0,
        ;
        let den = moved(100_000, dt);
        assert(den == 200_000 * dt) by (nonlinear_arith)
            requires
                den == 2 * 100_000 * dt,
        ;
        quotient_is(den, 2 * den, 0);
    }
}

/// A pack that neither filled up nor ran empty reports the flow it was told.
pub proof fn an_unhindered_flow_is_the_commanded_one(build: Build, charge: Charge, now: int)
    requires
        fits(build, charge),
        build.charge_efficiency > 0,
        build.discharge_efficiency > 0,
        0 < advanced(build, charge, now).stored < build.capacity,
    ensures
        advanced(build, charge, now).power == charge.power,
{
}

/// A round trip loses energy, and never gains any. Whatever charge and whatever
/// discharge follow each other, neither of them cut short, a pack that ends up
/// with no less than it started with delivered at most the product of the two
/// efficiencies of what it drew.
pub proof fn a_round_trip_never_gains(
    build: Build,
    charge: Charge,
    between: int,
    discharging: int,
    end: int,
)
    requires
        fits(build, charge),
        -0x8000_0000 <= charge.power < 0 < discharging <= 0x7fff_ffff,
        build.charge_efficiency > 0,
        build.discharge_efficiency > 0,
        0 < between - charge.last <= 0x1_0000_0000_0000_0000,
        0 < end - between <= 0x1_0000_0000_0000_0000,
        ({
            let full = advanced(build, charge, between);
            let after = advanced(build, Charge { power: discharging, ..full }, end);
            &&& full.stored < build.capacity
            &&& 0 < after.stored
            &&& charge.stored <= after.stored
        }),
    ensures
        moved(discharging, end - between) * 100_000 * 100_000 <= moved(
            -charge.power,
            between - charge.last,
        ) * build.charge_efficiency * build.discharge_efficiency,
{
    let full = advanced(build, charge, between);
    let into = moved(-charge.power, between - charge.last);
    let out = moved(discharging, end - between);
    let ce = build.charge_efficiency;
    let de = build.discharge_efficiency;
    gained_bounds(-charge.power, between - charge.last, ce);
    lost_bounds(discharging, end - between, de);
    let gained = into * ce / 100_000;
    let lost = ceiling(out * 100_000, de);
    assert(lost <= gained);
    assert(out * 100_000 * 100_000 <= into * ce * de) by (nonlinear_arith)
        requires
            gained * 100_000 <= into * ce,
            out * 100_000 <= lost * de,
            lost <= gained,
            de > 0,
    ;
}

/// What a charge of `watts` for `ms` milliseconds leaves in the pack, and the
/// power it drew.
fn charge_for(before: i128, capacity: i128, watts: i128, ms: i128, efficiency: i128) -> (out: (
    i128,
    i128,
))
    requires
        0 <= before <= capacity,
        0 < watts <= 0x8000_0000,
        0 < ms <= 0xffff_ffff_ffff_ffff,
        0 <= efficiency <= 100_000,
    ensures
        ({
            let landed = moved(watts as int, ms as int) * efficiency;
            if efficiency == 0 {
                out == (before, 0i128)
            } else if before + ceiling(landed, 100_000) <= capacity {
                out.0 == before + landed / 100_000 && out.1 == -watts
            } else {
                &&& out.0 == capacity
                &&& out.1 == -nearest(
                    (capacity - before) * 100_000,
                    moved(efficiency as int, ms as int),
                )
            }
        }),
{
    if efficiency == 0 {
        return (before, 0);
    }
    proof {
        gained_bounds(watts as int, ms as int, efficiency as int);
        gained_bounds(efficiency as int, ms as int, 0);
    }
    let landed: i128 = 2 * watts * ms * efficiency;
    let room: i128 = capacity - before;
    if (landed + 99_999) / 100_000 <= room {
        return (before + landed / 100_000, -watts);
    }
    let den: i128 = 2 * efficiency * ms;
    proof {
        assert(den > 0) by (nonlinear_arith)
            requires
                efficiency > 0,
                ms > 0,
                den == 2 * efficiency * ms,
        ;
        nearest_not_negative(room * 100_000, den as int);
    }
    let drawn: i128 = (2 * (room * 100_000) + den) / (2 * den);
    (capacity, -drawn)
}

/// What a discharge of `watts` for `ms` milliseconds leaves in the pack, and the
/// power it delivered.
fn discharge_for(before: i128, watts: i128, ms: i128, efficiency: i128) -> (out: (i128, i128))
    requires
        0 <= before,
        0 < watts <= 0x7fff_ffff,
        0 < ms <= 0xffff_ffff_ffff_ffff,
        0 <= efficiency <= 100_000,
    ensures
        ({
            let lost = ceiling(moved(watts as int, ms as int) * 100_000, efficiency as int);
            if efficiency == 0 {
                out == (0i128, 0i128)
            } else if lost <= before {
                out.0 == before - lost && out.1 == watts
            } else {
                &&& out.0 == 0
                &&& out.1 == nearest(before * efficiency, moved(100_000, ms as int))
            }
        }),
{
    if efficiency == 0 {
        return (0, 0);
    }
    proof {
        lost_bounds(watts as int, ms as int, efficiency as int);
    }
    let lost: i128 = (2 * watts * ms * 100_000 + efficiency - 1) / efficiency;
    if lost <= before {
        return (before - lost, watts);
    }
    let den: i128 = 200_000 * ms;
    proof {
        assert(moved(100_000, ms as int) == 200_000 * ms) by (nonlinear_arith)
            requires
                moved(100_000, ms as int) == 2 * 100_000 * ms,
        ;
        assert(0 <= before * efficiency <= (lost - 1) * efficiency) by (nonlinear_arith)
            requires
                0 <= before <= lost - 1,
                efficiency > 0,
        ;
    }
    (0, (2 * (before * efficiency) + den) / (2 * den))
}

/// Whether a pack is full by at least `odd` two-hundredths.
fn reaches(stored: i128, capacity: i128, odd: i128) -> (out: bool)
    requires
        0 <= stored <= capacity,
        0 < odd < 200,
    ensures
        out == (200 * stored >= odd * capacity),
{
    let whole: i128 = capacity / 200;
    let rest: i128 = capacity % 200;
    proof {
        assert(0 <= odd * whole <= 199 * whole && 0 <= odd * rest <= 199 * 199)
            by (nonlinear_arith)
            requires
                0 <= whole,
                0 <= rest < 200,
                0 < odd < 200,
        ;
        assert(odd * capacity == 200 * (odd * whole) + odd * rest) by (nonlinear_arith)
            requires
                capacity == 200 * whole + rest,
        ;
        assert(odd * rest + 199 <= 200 * rest + 199) by (nonlinear_arith)
            requires
                0 <= rest,
                odd < 200,
        ;
    }
    stored >= odd * whole + (odd * rest + 199) / 200
}

/// How full a pack is, in whole percent.
fn percent(stored: i128, capacity: i128) -> (out: u32)
    requires
        0 <= stored <= capacity,
    ensures
        out == percent_full(stored as int, capacity as int),
        out <= 100,
{
    if capacity == 0 {
        return 0;
    }
    let mut at: u32 = 100;
    let ghost c = capacity as int;
    assert((2 * at + 1) * c == 201 * c) by (nonlinear_arith)
        requires
            at == 100,
    ;
    while at > 0 && !reaches(stored, capacity, 2 * at as i128 - 1)
        invariant
            at <= 100,
            0 <= stored <= capacity,
            c == capacity,
            200 * stored < (2 * at + 1) * c,
        decreases at,
    {
        at -= 1;
    }
    proof {
        let num = 200 * stored + c;
        assert(at * (2 * c) == (2 * at) * c && (at + 1) * (2 * c) == (2 * at + 1) * c + c && (2
            * at) * c == (2 * at - 1) * c + c) by (nonlinear_arith);
        if at == 0 {
            assert((2 * at) * c == 0) by (nonlinear_arith)
                requires
                    at == 0,
            ;
        }
        quotient_is(num, 2 * c, at as int);
    }
    at
}

// --- the battery ---------------------------------------------------------------

/// A simulated battery: a rating, a set of packs, and a model of what they
/// currently hold.
#[derive(Debug)]
pub struct VirtualBattery {
    id: DeviceId,
    spec: BatterySpec,
    /// Capacities of the connected packs. Their sum is the usable capacity.
    packs: Vec<WattHours>,
    charge_efficiency: Efficiency,
    discharge_efficiency: Efficiency,
    model: Model,
}

#[derive(Debug, Clone, Copy)]
struct Model {
    stored: i128,
    power: BatteryPower,
    last: Timestamp,
    standby: bool,
}

impl VirtualBattery {
    pub closed spec fn build(self) -> Build {
        Build {
            spec: self.spec,
            capacity: WattHours::spec_sum(self.packs@).parts as int,
            charge_efficiency: self.charge_efficiency@,
            discharge_efficiency: self.discharge_efficiency@,
        }
    }

    pub closed spec fn charge(self) -> Charge {
        Charge {
            stored: self.model.stored as int,
            power: self.model.power.w as int,
            last: self.model.last.ms as int,
            standby: self.model.standby,
        }
    }

    pub closed spec fn packs(self) -> Seq<WattHours> {
        self.packs@
    }

    #[verifier::type_invariant]
    spec fn well_formed(self) -> bool {
        fits(self.build(), self.charge())
    }

    /// A battery that is `soc` full. Packs cannot hold less than nothing.
    pub fn new(
        id: DeviceId,
        spec: BatterySpec,
        packs: Vec<WattHours>,
        soc: Soc,
        charge_efficiency: Efficiency,
        discharge_efficiency: Efficiency,
        now: Timestamp,
    ) -> (out: Self)
        requires
            WattHours::spec_sum(packs@).parts >= 0,
        ensures
            out.spec_id() == id@,
            out.packs() == packs@,
            out.build() == (Build {
                spec,
                capacity: WattHours::spec_sum(packs@).parts as int,
                charge_efficiency: charge_efficiency@,
                discharge_efficiency: discharge_efficiency@,
            }),
            out.charge() == (Charge {
                stored: WattHours::spec_sum(packs@).parts * soc@ / 100,
                power: 0,
                last: now.ms as int,
                standby: false,
            }),
    {
        let capacity: i128 = WattHours::sum(packs.as_slice()).parts;
        let percent: i128 = soc.get() as i128;
        let whole: i128 = capacity / 100;
        let rest: i128 = capacity % 100;
        let ghost c = capacity as int;
        let ghost p = percent as int;
        proof {
            assert(0 <= whole * p <= whole * 100) by (nonlinear_arith)
                requires
                    0 <= whole,
                    0 <= p <= 100,
            ;
            assert(0 <= rest * p <= 99 * 100) by (nonlinear_arith)
                requires
                    0 <= rest <= 99,
                    0 <= p <= 100,
            ;
            assert(c * p == (whole * p) * 100 + rest * p) by (nonlinear_arith)
                requires
                    c == whole * 100 + rest,
            ;
            assert(rest * p / 100 <= rest) by (nonlinear_arith)
                requires
                    0 <= rest,
                    0 <= p <= 100,
            ;
        }
        let stored: i128 = whole * percent + rest * percent / 100;
        let charging: u32 = charge_efficiency.milli_percent();
        let discharging: u32 = discharge_efficiency.milli_percent();
        VirtualBattery {
            id,
            spec,
            packs,
            charge_efficiency,
            discharge_efficiency,
            model: Model { stored, power: BatteryPower { w: 0 }, last: now, standby: false },
        }
    }

    fn capacity(&self) -> (out: i128)
        ensures
            out == self.build().capacity,
    {
        WattHours::sum(self.packs.as_slice()).parts
    }

    /// Brings the model forward to `now`.
    fn advance_to(&mut self, now: Timestamp)
        ensures
            final(self).build() == old(self).build(),
            final(self).packs() == old(self).packs(),
            final(self).spec_id() == old(self).spec_id(),
            final(self).charge() == advanced(old(self).build(), old(self).charge(), now.ms as int),
    {
        proof {
            use_type_invariant(&*self);
        }
        let last: Timestamp = self.model.last;
        if now.as_millis() <= last.as_millis() {
            return;
        }
        let ms: i128 = now.as_millis() as i128 - last.as_millis() as i128;
        let capacity: i128 = self.capacity();
        let before: i128 = self.model.stored;
        let flow: i32 = self.model.power.w;
        let ghost build = self.build();
        let ghost charge = self.charge();
        proof {
            a_pack_stays_within_its_capacity(build, charge, now.ms as int);
        }
        let standby = self.model.standby;
        let (stored, power): (i128, i128) = if flow < 0 {
            let efficiency: i128 = self.charge_efficiency.milli_percent() as i128;
            let watts: i128 = -(flow as i128);
            charge_for(before, capacity, watts, ms, efficiency)
        } else if flow > 0 {
            let efficiency: i128 = self.discharge_efficiency.milli_percent() as i128;
            discharge_for(before, flow as i128, ms, efficiency)
        } else {
            (before, 0)
        };
        self.model = Model { stored, power: BatteryPower { w: power as i32 }, last: now, standby };
    }

    /// Installs a command, once the old one has been counted up to `now`.
    pub fn apply_at(&mut self, now: Timestamp, command: &Command)
        ensures
            final(self).build() == old(self).build(),
            final(self).packs() == old(self).packs(),
            final(self).spec_id() == old(self).spec_id(),
            final(self).charge() == told(
                old(self).build(),
                old(self).charge(),
                now.ms as int,
                *command,
            ),
    {
        self.advance_to(now);
        proof {
            use_type_invariant(&*self);
        }
        let power = match command {
            Command::SetCharge(setpoint) => {
                let watts = Setpoint::clamped(setpoint.get() as i64, self.spec.max_charge_power);
                BatteryPower { w: -saturate_i32(watts.get() as i128) }
            },
            Command::SetDischarge(setpoint) => {
                let watts = Setpoint::clamped(
                    setpoint.get() as i64,
                    self.spec.max_discharge_power,
                );
                BatteryPower { w: saturate_i32(watts.get() as i128) }
            },
            Command::SetIdle | Command::SetStandby => BatteryPower { w: 0 },
        };
        let standby = match command {
            Command::SetStandby => true,
            _ => false,
        };
        let stored: i128 = self.model.stored;
        let last = self.model.last;
        self.model = Model { stored, power, last, standby };
    }
}

impl VirtualBattery {
    /// The battery's state at `now`.
    pub fn reading_at(&mut self, now: Timestamp) -> (out: BatteryState)
        ensures
            final(self).build() == old(self).build(),
            final(self).packs() == old(self).packs(),
            final(self).spec_id() == old(self).spec_id(),
            final(self).charge() == advanced(old(self).build(), old(self).charge(), now.ms as int),
            is_state(out, final(self).build(), final(self).charge()),
    {
        self.advance_to(now);
        proof {
            use_type_invariant(&*self);
        }
        let full: u32 = percent(self.model.stored, self.capacity());
        BatteryState {
            soc: Soc::new(full),
            max_discharge_power: self.spec.max_discharge_power,
            max_charge_power: self.spec.max_charge_power,
            current_power: self.model.power,
            soc_calibrating: false,
            soc_limit_reached: full >= 100,
            fault: false,
        }
    }

    /// The flow that the battery achieves at `now`, which is not always the one
    /// it was told.
    pub fn flow_at(&mut self, now: Timestamp) -> (out: BatteryPower)
        ensures
            final(self).build() == old(self).build(),
            final(self).packs() == old(self).packs(),
            final(self).spec_id() == old(self).spec_id(),
            final(self).charge() == advanced(old(self).build(), old(self).charge(), now.ms as int),
            out.w == final(self).charge().power,
    {
        self.advance_to(now);
        self.model.power
    }

    /// A reading with its telemetry. A simulated pack always reports its
    /// capacities, and has no temperatures and no floor of its own.
    pub fn reading_as_battery_reading(&mut self, now: Timestamp) -> (out: BatteryReading)
        ensures
            final(self).build() == old(self).build(),
            final(self).packs() == old(self).packs(),
            final(self).spec_id() == old(self).spec_id(),
            final(self).charge() == advanced(old(self).build(), old(self).charge(), now.ms as int),
            is_reading(out, final(self).build(), final(self).charge(), final(self).packs()),
    {
        let state = self.reading_at(now);
        let mut packs: Vec<WattHours> = Vec::new();
        for i in 0..self.packs.len()
            invariant
                packs@ == self.packs@.take(i as int),
        {
            packs.push(self.packs[i]);
            assert(packs@ =~= self.packs@.take(i + 1));
        }
        assert(packs@ =~= self.packs@);
        BatteryReading {
            telemetry: BatteryTelemetry {
                charge: state.current_power.charging(),
                discharge: state.current_power.discharging(),
                pack_capacities: Some(packs),
                pack_temps: Vec::new(),
                enclosure_temp: None,
                min_soc: None,
            },
            state,
            raw: None,
        }
    }
}

/// A simulated pack never recalibrates and never faults.
pub open spec fn is_state(state: BatteryState, build: Build, charge: Charge) -> bool {
    &&& state.soc@ == percent_full(charge.stored, build.capacity)
    &&& state.max_discharge_power == build.spec.max_discharge_power
    &&& state.max_charge_power == build.spec.max_charge_power
    &&& state.current_power.w == charge.power
    &&& !state.soc_calibrating
    &&& state.soc_limit_reached == (percent_full(charge.stored, build.capacity) >= 100)
    &&& !state.fault
}

impl BatteryController for VirtualBattery {
    closed spec fn spec_id(&self) -> Seq<char> {
        self.id@
    }

    fn id(&self) -> (out: &DeviceId) {
        &self.id
    }
}

/// What a poll of a simulated battery gives: its state, and what follows from
/// it.
pub open spec fn is_reading(
    reading: BatteryReading,
    build: Build,
    charge: Charge,
    packs: Seq<WattHours>,
) -> bool {
    &&& is_state(reading.state, build, charge)
    &&& reading.raw is None
    &&& reading.telemetry.charge.w == reading.state.current_power.spec_charging()
    &&& reading.telemetry.discharge.w == reading.state.current_power.spec_discharging()
    &&& reading.telemetry.pack_capacities matches Some(sizes)
    &&& sizes@ == packs
    &&& reading.telemetry.pack_temps@.len() == 0
    &&& reading.telemetry.enclosure_temp is None
    &&& reading.telemetry.min_soc is None
}

impl BatteryMonitor for VirtualBattery {
    open spec fn rating(&self) -> BatterySpec {
        self.build().spec
    }

    fn spec(&self) -> (out: &BatterySpec) {
        &self.spec
    }

    /// There is no device to wake: the first reading is like any other.
    fn prepare(&mut self, now: Timestamp) -> (out: Result<BatteryReading, PollError>)
        ensures
            out matches Ok(reading) && is_reading(
                reading,
                final(self).build(),
                final(self).charge(),
                final(self).packs(),
            ),
            final(self).build() == old(self).build(),
            final(self).packs() == old(self).packs(),
            final(self).charge() == advanced(old(self).build(), old(self).charge(), now.ms as int),
    {
        Ok(self.reading_as_battery_reading(now))
    }

    fn poll(&mut self, now: Timestamp) -> (out: Result<BatteryReading, PollError>)
        ensures
            out matches Ok(reading) && is_reading(
                reading,
                final(self).build(),
                final(self).charge(),
                final(self).packs(),
            ),
            final(self).build() == old(self).build(),
            final(self).packs() == old(self).packs(),
            final(self).charge() == advanced(old(self).build(), old(self).charge(), now.ms as int),
    {
        Ok(self.reading_as_battery_reading(now))
    }
}

// --- what the model is held to -------------------------------------------------

/// A command installs its own flow: what it asks for within the rating of its own
/// direction, and that rating above it. Standing down stops the flow, and only
/// standby is remembered as such.
pub proof fn a_command_is_held_to_the_rating_of_its_direction(
    build: Build,
    charge: Charge,
    now: int,
    command: Command,
)
    ensures
        ({
            let after = told(build, charge, now, command);
            &&& command matches Command::SetCharge(w) ==> {
                &&& w.watts <= build.spec.max_charge_power.watts && w.watts <= i32::MAX
                    ==> after.power == -w.watts
                &&& w.watts > build.spec.max_charge_power.watts
                    && build.spec.max_charge_power.watts <= i32::MAX ==> after.power
                    == -build.spec.max_charge_power.watts
                &&& !after.standby
            }
            &&& command matches Command::SetDischarge(w) ==> {
                &&& w.watts <= build.spec.max_discharge_power.watts && w.watts <= i32::MAX
                    ==> after.power == w.watts
                &&& w.watts > build.spec.max_discharge_power.watts
                    && build.spec.max_discharge_power.watts <= i32::MAX ==> after.power
                    == build.spec.max_discharge_power.watts
                &&& !after.standby
            }
            &&& command is SetIdle ==> after.power == 0 && !after.standby
            &&& command is SetStandby ==> after.power == 0 && after.standby
            &&& after.stored == advanced(build, charge, now).stored
            &&& after.last == advanced(build, charge, now).last
        }),
{
}

/// The model moves with the clock and only forward: what is asked for an instant
/// that is past changes nothing, and a pack that stands still keeps what it has.
pub proof fn a_pack_at_rest_keeps_its_energy(build: Build, charge: Charge, now: int)
    ensures
        now <= charge.last ==> advanced(build, charge, now) == charge,
        now > charge.last ==> advanced(build, charge, now).last == now,
        advanced(build, charge, now).standby == charge.standby,
        charge.power == 0 ==> advanced(build, charge, now).stored == charge.stored && advanced(
            build,
            charge,
            now,
        ).power == 0,
{
}

/// Charging stores what was drawn at the meter, less the loss on the way in. A
/// flow of `w` watts draws `2 * w` parts a millisecond; of that, the efficiency
/// lands, with the fraction dropped.
pub proof fn a_charge_stores_what_lands(build: Build, charge: Charge, now: int)
    requires
        fits(build, charge),
        charge.power < 0,
        now > charge.last,
        build.charge_efficiency > 0,
    ensures
        ({
            let after = advanced(build, charge, now);
            let drawn = 2 * -charge.power * (now - charge.last);
            let gain = after.stored - charge.stored;
            &&& gain >= 0
            &&& after.stored < build.capacity ==> gain * 100_000 <= drawn
                * build.charge_efficiency < (gain + 1) * 100_000 && after.power == charge.power
            &&& gain * 100_000 <= drawn * build.charge_efficiency
        }),
{
    let drawn = 2 * -charge.power * (now - charge.last);
    assert(drawn * build.charge_efficiency >= 0) by (nonlinear_arith)
        requires
            drawn == 2 * -charge.power * (now - charge.last),
            charge.power < 0,
            now > charge.last,
            build.charge_efficiency > 0,
    ;
}

/// Discharging takes what was delivered at the meter out of the store, and the loss
/// on the way out on top.
pub proof fn a_discharge_costs_what_it_delivers_and_its_loss(
    build: Build,
    charge: Charge,
    now: int,
)
    requires
        fits(build, charge),
        0 < charge.power <= 0x7fff_ffff,
        0 < now - charge.last <= 0x1_0000_0000_0000_0000,
        build.discharge_efficiency > 0,
    ensures
        ({
            let after = advanced(build, charge, now);
            let delivered = 2 * charge.power * (now - charge.last);
            let cost = charge.stored - after.stored;
            &&& cost >= 0
            &&& after.stored > 0 ==> (cost - 1) * build.discharge_efficiency < delivered * 100_000
                <= cost * build.discharge_efficiency && after.power == charge.power
            &&& (cost - 1) * build.discharge_efficiency < delivered * 100_000
        }),
{
    let dt = now - charge.last;
    lost_bounds(charge.power, dt, build.discharge_efficiency);
    let lost = ceiling(moved(charge.power, dt) * 100_000, build.discharge_efficiency);
    if lost > charge.stored {
        let e = build.discharge_efficiency;
        assert((charge.stored - 1) * e <= (lost - 1) * e) by (nonlinear_arith)
            requires
                charge.stored <= lost,
                e > 0,
        ;
    }
}

/// A pack that fills up reports the flow that filled it, to the nearest watt: over
/// the time, that flow would have stored just what there was room for.
pub proof fn a_full_pack_reports_what_it_took(build: Build, charge: Charge, now: int)
    requires
        fits(build, charge),
        charge.power < 0,
        now > charge.last,
        build.charge_efficiency > 0,
        advanced(build, charge, now).power != charge.power,
    ensures
        ({
            let after = advanced(build, charge, now);
            let room = (build.capacity - charge.stored) * 100_000;
            let per_watt = 2 * build.charge_efficiency * (now - charge.last);
            &&& after.stored == build.capacity
            &&& 2 * room - per_watt < 2 * (-after.power * per_watt) <= 2 * room + per_watt
        }),
{
    let room = (build.capacity - charge.stored) * 100_000;
    let per_watt = 2 * build.charge_efficiency * (now - charge.last);
    assert(per_watt > 0) by (nonlinear_arith)
        requires
            per_watt == 2 * build.charge_efficiency * (now - charge.last),
            build.charge_efficiency > 0,
            now > charge.last,
    ;
    nearest_is_near(room, per_watt);
}

/// A pack that runs empty reports the flow that emptied it, to the nearest watt.
pub proof fn an_empty_pack_reports_what_it_gave(build: Build, charge: Charge, now: int)
    requires
        fits(build, charge),
        charge.power > 0,
        now > charge.last,
        build.discharge_efficiency > 0,
        advanced(build, charge, now).power != charge.power,
    ensures
        ({
            let after = advanced(build, charge, now);
            let gave = charge.stored * build.discharge_efficiency;
            let per_watt = 2 * 100_000 * (now - charge.last);
            &&& after.stored == 0
            &&& 2 * gave - per_watt < 2 * (after.power * per_watt) <= 2 * gave + per_watt
        }),
{
    let per_watt = 2 * 100_000 * (now - charge.last);
    assert(per_watt > 0) by (nonlinear_arith)
        requires
            per_watt == 2 * 100_000 * (now - charge.last),
            now > charge.last,
    ;
    nearest_is_near(charge.stored * build.discharge_efficiency, per_watt);
}

/// The nearest whole number is no more than half away.
proof fn nearest_is_near(num: int, den: int)
    requires
        den > 0,
    ensures
        2 * num - den < 2 * (nearest(num, den) * den) <= 2 * num + den,
{
    let q = nearest(num, den);
    assert(2 * num - den < 2 * (q * den) <= 2 * num + den) by (nonlinear_arith)
        requires
            den > 0,
            q == (2 * num + den) / (2 * den),
    ;
}

/// What a pack reports is what it holds: the percentage nearest to what it holds of
/// what fits, the flow as it is, and the limits of its rating, each for its own
/// direction. Only a full one takes no more.
pub proof fn a_pack_reports_what_it_holds(state: BatteryState, build: Build, charge: Charge)
    requires
        is_state(state, build, charge),
        fits(build, charge),
    ensures
        build.capacity > 0 ==> 200 * charge.stored - build.capacity < 2 * (state.soc@
            * build.capacity) <= 200 * charge.stored + build.capacity,
        build.capacity == 0 ==> state.soc@ == 0,
        state.current_power.w == charge.power,
        state.max_charge_power.watts == build.spec.max_charge_power.watts,
        state.max_discharge_power.watts == build.spec.max_discharge_power.watts,
        state.soc_limit_reached <==> state.soc@ >= 100,
        !state.soc_calibrating,
        !state.fault,
{
    if build.capacity > 0 {
        nearest_is_near(100 * charge.stored, build.capacity);
    }
}

/// A reading splits the flow by its direction, and names the packs.
pub proof fn a_reading_splits_the_flow(
    reading: BatteryReading,
    build: Build,
    charge: Charge,
    packs: Seq<WattHours>,
)
    requires
        is_reading(reading, build, charge, packs),
        charge.power > i32::MIN,
    ensures
        reading.telemetry.discharge.w - reading.telemetry.charge.w == charge.power,
        reading.telemetry.discharge.w >= 0,
        reading.telemetry.charge.w >= 0,
        reading.telemetry.discharge.w == 0 || reading.telemetry.charge.w == 0,
        reading.telemetry.pack_capacities matches Some(sizes) && sizes@ == packs,
{
}

} // verus!
