//! Integrating a recorded run into daily energy, offline.
//!
//! The journal records power and never energy, so the questions that decide
//! hardware have to be integrated from its rows: how much solar reached the grid
//! while the battery had nowhere to put it, and how much demand sat above the
//! inverter's ceiling.

use vstd::prelude::*;

use crate::battery::BatteryState;
use crate::binary64;
use crate::calendar::{day_number, day_of_year, utc_day, year_and_ordinal, Date};
use crate::clock::Clock;
use crate::event::{happenings, Event, Happening};
use crate::text;
use crate::text::{decimal, joined, views};
use crate::units::{saturated_i32, saturated_i64, Duration, GridPower, Soc, Timestamp, WattHours, Watts};
use crate::world::{Measurement, MeterReading};

verus! {

/// Longer than this between meter readings is a gap, not a measurement.
pub const MAX_SAMPLE_GAP_MS: i64 = 30_000;

/// A meter reading together with the battery state in force when it arrived.
#[derive(Debug, Clone, Copy)]
pub struct Sample {
    pub at: Timestamp,
    pub day: Date,
    pub grid: MeterReading,
    /// Absent until the range's first poll, and not taken for an idle battery.
    pub battery: Option<BatteryState>,
}

pub open spec fn at_least_zero(w: int) -> int {
    if w < 0 {
        0
    } else {
        w
    }
}

fn positive(watts: Watts) -> (out: Watts)
    ensures
        out.w == at_least_zero(watts.w as int),
{
    if watts.get() < 0 {
        Watts::zero()
    } else {
        watts
    }
}

impl Sample {
    pub open spec fn spec_import(self) -> int {
        at_least_zero(self.grid.total.spec_importing())
    }

    pub open spec fn spec_export(self) -> int {
        at_least_zero(self.grid.total.spec_exporting())
    }

    pub open spec fn spec_charging(self) -> int {
        match self.battery {
            Some(battery) => battery.current_power.spec_charging(),
            None => 0,
        }
    }

    pub open spec fn spec_discharging(self) -> int {
        match self.battery {
            Some(battery) => battery.current_power.spec_discharging(),
            None => 0,
        }
    }

    /// Export that the battery did not take: all of it while it is known not to
    /// be charging.
    pub open spec fn spec_unstored_export(self) -> int {
        if self.battery is None || self.spec_charging() > 0 {
            0
        } else {
            self.spec_export()
        }
    }

    /// Demand above the limit that the inverter reports, on the grid as it would
    /// be without the battery.
    pub open spec fn spec_above_cap(self) -> int {
        match self.battery {
            Some(battery) => {
                let underlying = GridPower {
                    mw: saturated_i64(self.grid.total.mw + battery.current_power.w * 1000) as i64,
                };
                at_least_zero(
                    saturated_i32(
                        underlying.spec_importing() - saturated_i32(
                            battery.max_discharge_power.watts as int,
                        ),
                    ),
                )
            },
            None => 0,
        }
    }

    pub fn import(&self) -> (out: Watts)
        ensures
            out.w == self.spec_import(),
    {
        positive(self.grid.total.importing())
    }

    pub fn export(&self) -> (out: Watts)
        ensures
            out.w == self.spec_export(),
    {
        positive(self.grid.total.exporting())
    }

    pub fn charging(&self) -> (out: Watts)
        ensures
            out.w == self.spec_charging(),
    {
        match &self.battery {
            Some(battery) => battery.current_power.charging(),
            None => Watts::zero(),
        }
    }

    pub fn discharging(&self) -> (out: Watts)
        ensures
            out.w == self.spec_discharging(),
    {
        match &self.battery {
            Some(battery) => battery.current_power.discharging(),
            None => Watts::zero(),
        }
    }

    pub fn unstored_export(&self) -> (out: Watts)
        ensures
            out.w == self.spec_unstored_export(),
    {
        if self.battery.is_none() || self.charging().get() > 0 {
            Watts::zero()
        } else {
            self.export()
        }
    }

    pub fn above_cap(&self) -> (out: Watts)
        ensures
            out.w == self.spec_above_cap(),
    {
        match &self.battery {
            Some(battery) => {
                let underlying = self.grid.total.plus_battery(battery.current_power);
                let cap = Watts::from_device(battery.max_discharge_power.get());
                let above: i64 = underlying.importing().get() as i64 - cap.get() as i64;
                if above < 0 {
                    Watts::zero()
                } else if above > 0x7fff_ffff {
                    Watts { w: i32::MAX }
                } else {
                    Watts { w: above as i32 }
                }
            },
            None => Watts::zero(),
        }
    }
}

// --- totals --------------------------------------------------------------------

/// Import and export on one phase.
#[derive(Debug, Clone, Copy, PartialEq, Eq, Structural)]
pub struct PhaseTotals {
    pub import: WattHours,
    pub export: WattHours,
}

impl PhaseTotals {
    #[verifier::allow_in_spec]
    pub fn zero() -> Self
        returns
            (PhaseTotals { import: WattHours::zero(), export: WattHours::zero() }),
    {
        PhaseTotals { import: WattHours::zero(), export: WattHours::zero() }
    }
}

/// One local day's energy. Everything is integrated from power, except the
/// states of charge, which are observed.
#[derive(Debug, Clone, Copy, PartialEq)]
pub struct DayTotals {
    pub day: Date,
    /// How much of the day the samples span.
    pub covered: Duration,
    pub import: WattHours,
    pub export: WattHours,
    pub unstored_export: WattHours,
    pub charged: WattHours,
    pub discharged: WattHours,
    pub above_cap: WattHours,
    pub soc_min: Option<Soc>,
    pub soc_max: Option<Soc>,
    pub phases: [PhaseTotals; 3],
}

/// [`DayTotals`] as a mathematical value.
pub struct Day {
    pub day: Date,
    pub covered: Duration,
    pub import: WattHours,
    pub export: WattHours,
    pub unstored_export: WattHours,
    pub charged: WattHours,
    pub discharged: WattHours,
    pub above_cap: WattHours,
    pub soc_min: Option<int>,
    pub soc_max: Option<int>,
    pub a: PhaseTotals,
    pub b: PhaseTotals,
    pub c: PhaseTotals,
}

pub open spec fn percent_of(soc: Option<Soc>) -> Option<int> {
    match soc {
        Some(soc) => Some(soc@),
        None => None,
    }
}

impl View for DayTotals {
    type V = Day;

    open spec fn view(&self) -> Day {
        Day {
            day: self.day,
            covered: self.covered,
            import: self.import,
            export: self.export,
            unstored_export: self.unstored_export,
            charged: self.charged,
            discharged: self.discharged,
            above_cap: self.above_cap,
            soc_min: percent_of(self.soc_min),
            soc_max: percent_of(self.soc_max),
            a: self.phases@[0],
            b: self.phases@[1],
            c: self.phases@[2],
        }
    }
}

pub open spec fn days_of(totals: Seq<DayTotals>) -> Seq<Day> {
    totals.map_values(|t: DayTotals| t@)
}

/// A day of which nothing is known but that it was.
pub open spec fn blank(day: Date) -> Day {
    Day {
        day,
        covered: Duration::zero(),
        import: WattHours::zero(),
        export: WattHours::zero(),
        unstored_export: WattHours::zero(),
        charged: WattHours::zero(),
        discharged: WattHours::zero(),
        above_cap: WattHours::zero(),
        soc_min: None,
        soc_max: None,
        a: PhaseTotals::zero(),
        b: PhaseTotals::zero(),
        c: PhaseTotals::zero(),
    }
}

/// The energy between two power readings.
pub open spec fn energy(from: int, to: int, dt: int) -> WattHours {
    WattHours { parts: ((from + to) * dt) as i128 }
}

/// A phase, once an interval is added.
pub open spec fn phase_added(
    totals: PhaseTotals,
    was: GridPower,
    is: GridPower,
    dt: int,
) -> PhaseTotals {
    PhaseTotals {
        import: totals.import.spec_plus(
            energy(at_least_zero(was.spec_importing()), at_least_zero(is.spec_importing()), dt),
        ),
        export: totals.export.spec_plus(
            energy(at_least_zero(was.spec_exporting()), at_least_zero(is.spec_exporting()), dt),
        ),
    }
}

/// A day, once an interval is added.
pub open spec fn added(day: Day, previous: Sample, current: Sample, dt: int) -> Day {
    Day {
        day: day.day,
        covered: day.covered.spec_plus(Duration { secs: (dt / 1000) as u64, millis: (dt % 1000) as u32 }),
        import: day.import.spec_plus(energy(previous.spec_import(), current.spec_import(), dt)),
        export: day.export.spec_plus(energy(previous.spec_export(), current.spec_export(), dt)),
        unstored_export: day.unstored_export.spec_plus(
            energy(previous.spec_unstored_export(), current.spec_unstored_export(), dt),
        ),
        charged: day.charged.spec_plus(
            energy(previous.spec_charging(), current.spec_charging(), dt),
        ),
        discharged: day.discharged.spec_plus(
            energy(previous.spec_discharging(), current.spec_discharging(), dt),
        ),
        above_cap: day.above_cap.spec_plus(
            energy(previous.spec_above_cap(), current.spec_above_cap(), dt),
        ),
        soc_min: day.soc_min,
        soc_max: day.soc_max,
        a: phase_added(day.a, previous.grid.phases@[0], current.grid.phases@[0], dt),
        b: phase_added(day.b, previous.grid.phases@[1], current.grid.phases@[1], dt),
        c: phase_added(day.c, previous.grid.phases@[2], current.grid.phases@[2], dt),
    }
}

/// A day, once a state of charge is seen.
pub open spec fn soc_observed(day: Day, soc: int) -> Day {
    Day {
        soc_min: match day.soc_min {
            Some(least) if least <= soc => Some(least),
            _ => Some(soc),
        },
        soc_max: match day.soc_max {
            Some(most) if most >= soc => Some(most),
            _ => Some(soc),
        },
        ..day
    }
}

/// The interval between two readings, unless it is a gap or runs backwards.
pub open spec fn interval(from: Timestamp, to: Timestamp) -> Option<int> {
    if 0 <= to.ms - from.ms <= MAX_SAMPLE_GAP_MS {
        Some(to.ms - from.ms)
    } else {
        None
    }
}

impl DayTotals {
    fn new(day: Date) -> (out: Self)
        ensures
            out@ == blank(day),
    {
        let zero = PhaseTotals::zero();
        DayTotals {
            day,
            covered: Duration::zero(),
            import: WattHours::zero(),
            export: WattHours::zero(),
            unstored_export: WattHours::zero(),
            charged: WattHours::zero(),
            discharged: WattHours::zero(),
            above_cap: WattHours::zero(),
            soc_min: None,
            soc_max: None,
            phases: [zero, zero, zero],
        }
    }

    /// The day once a state of charge is seen.
    fn observe_soc(self, soc: Soc) -> (out: Self)
        ensures
            out@ == soc_observed(self@, soc@),
    {
        let soc_min = match self.soc_min {
            Some(least) => if least.get() <= soc.get() {
                least
            } else {
                soc
            },
            None => soc,
        };
        let soc_max = match self.soc_max {
            Some(most) => if most.get() >= soc.get() {
                most
            } else {
                soc
            },
            None => soc,
        };
        DayTotals { soc_min: Some(soc_min), soc_max: Some(soc_max), ..self }
    }

    /// How much of the day is covered, in milliseconds: at most the whole. A day
    /// can span slightly more, where an interval that ends past midnight is
    /// counted for it.
    pub open spec fn spec_coverage(self) -> int {
        if self.covered@ > 86_400_000 {
            86_400_000
        } else {
            self.covered@
        }
    }

    pub fn coverage(&self) -> (out: u64)
        ensures
            out == self.spec_coverage(),
    {
        let ms: u128 = self.covered.as_millis();
        if ms > 86_400_000 {
            86_400_000
        } else {
            ms as u64
        }
    }

    /// The day once an interval is added.
    fn add_interval(self, previous: &Sample, current: &Sample, ms: u64) -> (out: Self)
        requires
            ms <= 30_000,
        ensures
            out@ == added(self@, *previous, *current, ms as int),
    {
        let dt = Duration::from_millis(ms);
        let was = previous.grid.phases;
        let is = current.grid.phases;
        let phases = [
            add_phase(self.phases[0], was[0], is[0], dt),
            add_phase(self.phases[1], was[1], is[1], dt),
            add_phase(self.phases[2], was[2], is[2], dt),
        ];
        DayTotals {
            day: self.day,
            covered: self.covered.plus(dt),
            import: self.import.plus(WattHours::integrate(previous.import(), current.import(), dt)),
            export: self.export.plus(WattHours::integrate(previous.export(), current.export(), dt)),
            unstored_export: self.unstored_export.plus(
                WattHours::integrate(previous.unstored_export(), current.unstored_export(), dt),
            ),
            charged: self.charged.plus(
                WattHours::integrate(previous.charging(), current.charging(), dt),
            ),
            discharged: self.discharged.plus(
                WattHours::integrate(previous.discharging(), current.discharging(), dt),
            ),
            above_cap: self.above_cap.plus(
                WattHours::integrate(previous.above_cap(), current.above_cap(), dt),
            ),
            soc_min: self.soc_min,
            soc_max: self.soc_max,
            phases,
        }
    }
}

fn add_phase(totals: PhaseTotals, was: GridPower, is: GridPower, dt: Duration) -> (out: PhaseTotals)
    ensures
        out == phase_added(totals, was, is, dt@),
{
    PhaseTotals {
        import: totals.import.plus(
            WattHours::integrate(positive(was.importing()), positive(is.importing()), dt),
        ),
        export: totals.export.plus(
            WattHours::integrate(positive(was.exporting()), positive(is.exporting()), dt),
        ),
    }
}

// --- the calendar day of a clock -----------------------------------------------

pub open spec fn distance(a: int, b: int) -> int {
    if a < b {
        b - a
    } else {
        a - b
    }
}

/// The one of two dates that lies nearer to a third, the first where they lie
/// equally near.
pub open spec fn nearer(a: Option<i32>, b: Option<i32>, to: int) -> Option<i32> {
    match (a, b) {
        (Some(x), Some(y)) => if distance(y as int, to) < distance(x as int, to) {
            b
        } else {
            a
        },
        (None, _) => b,
        (_, None) => a,
    }
}

/// The local date of a clock, which knows the local day of the year but no
/// year: of the three years that it could belong to, the one that lands nearest
/// to the date in UTC.
pub open spec fn local_day(clock: Clock) -> Option<i32> {
    match day_number(utc_day(clock.now.ms as int)) {
        Some(utc) => match year_and_ordinal(utc.day) {
            Some((year, _)) => {
                let n = clock.day_ordinal;
                nearer(
                    nearer(
                        day_of_year((year - 1) as i32, n),
                        day_of_year(year, n),
                        utc.day as int,
                    ),
                    day_of_year((year + 1) as i32, n),
                    utc.day as int,
                )
            },
            None => None,
        },
        None => None,
    }
}

fn pick_nearer(a: Option<Date>, b: Option<Date>, to: Date) -> (out: Option<Date>)
    ensures
        number_of(out) == nearer(number_of(a), number_of(b), to.day as int),
{
    match (a, b) {
        (Some(x), Some(y)) => {
            let from_x: i64 = x.day as i64 - to.day as i64;
            let from_y: i64 = y.day as i64 - to.day as i64;
            let x_away: i64 = if from_x < 0 {
                -from_x
            } else {
                from_x
            };
            let y_away: i64 = if from_y < 0 {
                -from_y
            } else {
                from_y
            };
            if y_away < x_away {
                b
            } else {
                a
            }
        },
        (None, _) => b,
        (_, None) => a,
    }
}

pub open spec fn number_of(date: Option<Date>) -> Option<i32> {
    match date {
        Some(date) => Some(date.day),
        None => None,
    }
}

/// The local calendar date that a clock falls in.
pub fn local_date(clock: &Clock) -> (out: Option<Date>)
    ensures
        number_of(out) == local_day(*clock),
{
    let utc = match Date::of_utc(clock.now) {
        Some(utc) => utc,
        None => return None,
    };
    let year: i32 = match utc.year() {
        Some(year) => year,
        None => return None,
    };
    let earlier = pick_nearer(
        Date::of_year(year - 1, clock.day_ordinal),
        Date::of_year(year, clock.day_ordinal),
        utc,
    );
    pick_nearer(earlier, Date::of_year(year + 1, clock.day_ordinal), utc)
}

// --- folding -------------------------------------------------------------------

/// The days so far, what is known of the battery, and the last reading.
pub struct Tally {
    pub days: Map<int, Day>,
    pub battery: Option<BatteryState>,
    pub previous: Option<Sample>,
}

/// The days, with one more that was seen.
pub open spec fn touched(days: Map<int, Day>, day: Date) -> Map<int, Day> {
    if days.contains_key(day.day as int) {
        days
    } else {
        days.insert(day.day as int, blank(day))
    }
}

/// The days, once an interval is integrated into the one that it starts in.
pub open spec fn accumulated(days: Map<int, Day>, previous: Sample, current: Sample) -> Map<
    int,
    Day,
> {
    match interval(previous.at, current.at) {
        Some(dt) => {
            let known = touched(days, previous.day);
            let key = previous.day.day as int;
            known.insert(key, added(known[key], previous, current, dt))
        },
        None => days,
    }
}

/// The days, once a reading is seen on its own.
pub open spec fn seen(days: Map<int, Day>, sample: Sample) -> Map<int, Day> {
    let known = touched(days, sample.day);
    let key = sample.day.day as int;
    match sample.battery {
        Some(battery) => known.insert(key, soc_observed(known[key], battery.soc@)),
        None => known,
    }
}

/// What the first `n` events come to.
pub open spec fn tallied(events: Seq<Happening>, n: int) -> Tally
    decreases n,
{
    if n <= 0 {
        Tally { days: Map::empty(), battery: None, previous: None }
    } else {
        let before = tallied(events, n - 1);
        match events[n - 1] {
            Happening::DeviceUpdate { measurement: Measurement::Battery(state), .. } => Tally {
                battery: Some(state),
                ..before
            },
            Happening::Meter { at, grid, .. } => match local_day(at) {
                Some(day) => {
                    let sample = Sample {
                        at: at.now,
                        day: Date { day },
                        grid,
                        battery: before.battery,
                    };
                    let days = match before.previous {
                        Some(previous) => accumulated(before.days, previous, sample),
                        None => before.days,
                    };
                    Tally { days: seen(days, sample), previous: Some(sample), ..before }
                },
                None => before,
            },
            Happening::MqttTimeout { .. } => before,
        }
    }
}

/// Every day of a map once, oldest first.
pub open spec fn is_listing(list: Seq<Day>, days: Map<int, Day>) -> bool {
    &&& forall|i: int, j: int|
        0 <= i < j < list.len() ==> (#[trigger] list[i]).day.day < (#[trigger] list[j]).day.day
    &&& forall|i: int|
        0 <= i < list.len() ==> days.contains_key((#[trigger] list[i]).day.day as int)
            && days[list[i].day.day as int] == list[i]
    &&& forall|k: int| #[trigger]
        days.contains_key(k) ==> exists|i: int| 0 <= i < list.len() && (#[trigger] list[i]).day.day
            == k
}

/// Replacing a day keeps a listing.
proof fn relisted(list: Seq<Day>, days: Map<int, Day>, at: int, new: Day)
    requires
        is_listing(list, days),
        0 <= at < list.len(),
        new.day == list[at].day,
    ensures
        is_listing(list.update(at, new), days.insert(new.day.day as int, new)),
{
    let after = list.update(at, new);
    let map = days.insert(new.day.day as int, new);
    assert forall|i: int, j: int| 0 <= i < j < after.len() implies (#[trigger] after[i]).day.day < (
    #[trigger] after[j]).day.day by {
        assert(list[i].day.day < list[j].day.day);
    }
    assert forall|i: int| 0 <= i < after.len() implies map.contains_key(
        (#[trigger] after[i]).day.day as int,
    ) && map[after[i].day.day as int] == after[i] by {
        if i != at {
            if i < at {
                assert(list[i].day.day < list[at].day.day);
            } else {
                assert(list[at].day.day < list[i].day.day);
            }
        }
    }
    assert forall|k: int| #[trigger] map.contains_key(k) implies exists|i: int|
        0 <= i < after.len() && (#[trigger] after[i]).day.day == k by {
        if k == new.day.day {
            assert(after[at].day.day == k);
        } else {
            let i = choose|i: int| 0 <= i < list.len() && (#[trigger] list[i]).day.day == k;
            assert(after[i].day.day == k);
        }
    }
}

/// A new day goes where it belongs.
proof fn listed(list: Seq<Day>, days: Map<int, Day>, at: int, new: Day)
    requires
        is_listing(list, days),
        0 <= at <= list.len(),
        forall|i: int| 0 <= i < at ==> (#[trigger] list[i]).day.day < new.day.day,
        forall|i: int| at <= i < list.len() ==> new.day.day < (#[trigger] list[i]).day.day,
    ensures
        !days.contains_key(new.day.day as int),
        is_listing(list.insert(at, new), days.insert(new.day.day as int, new)),
{
    let after = list.insert(at, new);
    let map = days.insert(new.day.day as int, new);
    let old_at = |i: int|
        if i < at {
            i
        } else {
            i - 1
        };
    if days.contains_key(new.day.day as int) {
        let i = choose|i: int|
            0 <= i < list.len() && (#[trigger] list[i]).day.day == new.day.day as int;
        assert(false);
    }
    assert forall|i: int, j: int| 0 <= i < j < after.len() implies (#[trigger] after[i]).day.day < (
    #[trigger] after[j]).day.day by {
        if i != at {
            assert(after[i] == list[old_at(i)]);
        }
        if j != at {
            assert(after[j] == list[old_at(j)]);
        }
    }
    assert forall|i: int| 0 <= i < after.len() implies map.contains_key(
        (#[trigger] after[i]).day.day as int,
    ) && map[after[i].day.day as int] == after[i] by {
        if i != at {
            assert(after[i] == list[old_at(i)]);
        }
    }
    assert forall|k: int| #[trigger] map.contains_key(k) implies exists|i: int|
        0 <= i < after.len() && (#[trigger] after[i]).day.day == k by {
        if k == new.day.day {
            assert(after[at].day.day == k);
        } else {
            let i = choose|i: int| 0 <= i < list.len() && (#[trigger] list[i]).day.day == k;
            if i < at {
                assert(after[i].day.day == k);
            } else {
                assert(after[i + 1].day.day == k);
            }
        }
    }
}

/// Where the entry of `day` stands, once there is one.
fn entry(days: &mut Vec<DayTotals>, day: Date, Ghost(map): Ghost<Map<int, Day>>) -> (at: usize)
    requires
        is_listing(days_of(old(days)@), map),
    ensures
        is_listing(days_of(final(days)@), touched(map, day)),
        at < final(days)@.len(),
        final(days)@[at as int].day == day,
{
    let mut at: usize = 0;
    let ghost list = days_of(days@);
    while at < days.len() && days[at].day.day < day.day
        invariant
            list == days_of(days@),
            at <= days.len(),
            forall|i: int| 0 <= i < at ==> (#[trigger] list[i]).day.day < day.day,
        decreases days.len() - at,
    {
        assert(list[at as int].day.day == days@[at as int].day.day);
        at += 1;
    }
    if at < days.len() {
        assert(list[at as int] == days@[at as int]@);
        if days[at].day.day == day.day {
            assert(map.contains_key(list[at as int].day.day as int));
            return at;
        }
        assert forall|i: int| at <= i < list.len() implies day.day < (
        #[trigger] list[i]).day.day by {
            if i > at {
                assert(list[at as int].day.day < list[i].day.day);
            }
        }
    }
    let new = DayTotals::new(day);
    proof {
        listed(list, map, at as int, new@);
    }
    days.insert(at, new);
    assert(days_of(days@) =~= list.insert(at as int, new@));
    at
}

/// Integrates one interval into the day that its earlier end falls in.
fn accumulate(
    days: &mut Vec<DayTotals>,
    previous: &Sample,
    current: &Sample,
    Ghost(map): Ghost<Map<int, Day>>,
)
    requires
        is_listing(days_of(old(days)@), map),
    ensures
        is_listing(days_of(final(days)@), accumulated(map, *previous, *current)),
{
    let ms: u64 = match span(previous.at, current.at) {
        Some(ms) => ms,
        None => return,
    };
    let at = entry(days, previous.day, Ghost(map));
    let ghost known = touched(map, previous.day);
    let ghost list = days_of(days@);
    let totals = days[at].add_interval(previous, current, ms);
    proof {
        assert(list[at as int] == days@[at as int]@);
        relisted(list, known, at as int, totals@);
    }
    days.set(at, totals);
    assert(days_of(days@) =~= list.update(at as int, totals@));
}

/// The interval between two readings in milliseconds, unless it is a gap or
/// runs backwards.
fn span(from: Timestamp, to: Timestamp) -> (out: Option<u64>)
    ensures
        match out {
            Some(ms) => interval(from, to) == Some(ms as int),
            None => interval(from, to) is None,
        },
{
    let ms: i128 = to.as_millis() as i128 - from.as_millis() as i128;
    if 0 <= ms && ms <= MAX_SAMPLE_GAP_MS as i128 {
        Some(ms as u64)
    } else {
        None
    }
}

/// Folds a range of events into one entry per local day, oldest first. A day
/// whose intervals were all gaps still happened, and has its entry.
pub fn daily(events: &[Event]) -> (out: Vec<DayTotals>)
    ensures
        is_listing(
            days_of(out@),
            tallied(happenings(events@), events@.len() as int).days,
        ),
{
    let ghost all = happenings(events@);
    let mut days: Vec<DayTotals> = Vec::new();
    let mut battery: Option<BatteryState> = None;
    let mut previous: Option<Sample> = None;
    for i in 0..events.len()
        invariant
            all == happenings(events@),
            is_listing(days_of(days@), tallied(all, i as int).days),
            battery == tallied(all, i as int).battery,
            previous == tallied(all, i as int).previous,
    {
        let ghost before = tallied(all, i as int);
        assert(all[i as int] == events@[i as int]@);
        match &events[i] {
            Event::DeviceUpdate { measurement: Measurement::Battery(state), .. } => {
                battery = Some(*state);
            },
            Event::Meter { at, grid, .. } => {
                if let Some(day) = local_date(at) {
                    let sample = Sample { at: at.now, day, grid: *grid, battery };
                    let ghost mut map = before.days;
                    if let Some(earlier) = &previous {
                        accumulate(&mut days, earlier, &sample, Ghost(map));
                        proof {
                            map = accumulated(map, *earlier, sample);
                        }
                    }
                    let slot = entry(&mut days, day, Ghost(map));
                    let ghost known = touched(map, day);
                    let ghost list = days_of(days@);
                    if let Some(state) = &battery {
                        let totals = days[slot].observe_soc(state.soc);
                        proof {
                            assert(list[slot as int] == days@[slot as int]@);
                            relisted(list, known, slot as int, totals@);
                        }
                        days.set(slot, totals);
                        assert(days_of(days@) =~= list.update(slot as int, totals@));
                    }
                    previous = Some(sample);
                }
            },
            Event::MqttTimeout { .. } => {},
        }
    }
    days
}

// --- tables --------------------------------------------------------------------

pub open spec fn spaces(n: int) -> Seq<char> {
    Seq::new(
        if n < 0 {
            0
        } else {
            n as nat
        },
        |i: int| ' ',
    )
}

/// A text moved to the right of a column.
pub open spec fn right(text: Seq<char>, width: int) -> Seq<char> {
    spaces(width - text.len()) + text
}

/// Appends a text, moved to the right of a column.
fn push_right(out: &mut String, text: &str, width: usize)
    ensures
        final(out)@ == old(out)@ + right(text@, width as int),
{
    let length: usize = text::chars_of(text).len();
    let ghost before = out@;
    if length < width {
        let missing: usize = width - length;
        for i in 0..missing
            invariant
                out@ == before + spaces(i as int),
        {
            out.push(' ');
            assert(out@ =~= before + spaces(i + 1));
        }
    } else {
        assert(out@ =~= before + spaces(width - length));
    }
    let ghost padded = out@;
    out.append(text);
    assert(out@ =~= before + right(text@, width as int));
}

/// The coverage of a day in whole percent.
pub open spec fn coverage_text(day: Day) -> Seq<char> {
    let ms = if day.covered@ > 86_400_000 {
        86_400_000
    } else {
        day.covered@
    };
    decimal(binary64::percent_of(ms as nat, 86_400_000)) + "%"@
}

pub open spec fn soc_text(day: Day) -> Seq<char> {
    match (day.soc_min, day.soc_max) {
        (Some(least), Some(most)) => decimal(least as nat) + "-"@ + decimal(most as nat) + "%"@,
        _ => "—"@,
    }
}

/// A day's row in the table of the whole house.
pub open spec fn house_row(day: Day) -> Seq<char> {
    day.day.spec_text() + "   "@ + right(coverage_text(day), 5) + "  "@ + right(
        day.import.spec_kwh_text(),
        7,
    ) + "  "@ + right(day.export.spec_kwh_text(), 7) + "  "@ + right(
        day.unstored_export.spec_kwh_text(),
        8,
    ) + "  "@ + right(day.charged.spec_kwh_text(), 7) + "  "@ + right(
        day.discharged.spec_kwh_text(),
        10,
    ) + "  "@ + right(day.above_cap.spec_kwh_text(), 5) + "  "@ + right(soc_text(day), 7) + "\n"@
}

/// Two columns of a phase.
pub open spec fn phase_columns(phase: PhaseTotals) -> Seq<char> {
    "  "@ + right(phase.import.spec_kwh_text(), 7) + "  "@ + right(phase.export.spec_kwh_text(), 7)
}

/// A day's row in the table of phases.
pub open spec fn phase_row(day: Day) -> Seq<char> {
    day.day.spec_text() + phase_columns(day.a) + phase_columns(day.b) + phase_columns(day.c)
        + "\n"@
}

pub open spec fn house_rows(days: Seq<Day>, n: int) -> Seq<char>
    decreases n,
{
    if n <= 0 {
        Seq::empty()
    } else {
        house_rows(days, n - 1) + house_row(days[n - 1])
    }
}

pub open spec fn phase_rows(days: Seq<Day>, n: int) -> Seq<char>
    decreases n,
{
    if n <= 0 {
        Seq::empty()
    } else {
        phase_rows(days, n - 1) + phase_row(days[n - 1])
    }
}

/// Less than 95 % of the day is covered.
pub open spec fn is_thin(day: Day) -> bool {
    day.covered@ < 82_080_000
}

/// The names of the thin days among the first `n`.
pub open spec fn thin_days(days: Seq<Day>, n: int) -> Seq<Seq<char>>
    decreases n,
{
    if n <= 0 {
        Seq::empty()
    } else if is_thin(days[n - 1]) {
        thin_days(days, n - 1).push(days[n - 1].day.spec_text())
    } else {
        thin_days(days, n - 1)
    }
}

/// Both tables, what their columns mean, and a warning of days that are short.
pub open spec fn rendered(days: Seq<Day>) -> Seq<char> {
    let n = days.len() as int;
    let thin = thin_days(days, n);
    let tables =
        "day           cover   import   export  unstored  charged  discharged   >cap      soc\n"@
        + house_rows(days, n)
        + "\nday            A imp    A exp    B imp    B exp    C imp    C exp\n"@ + phase_rows(
        days,
        n,
    )
        + "\nkWh. `unstored` is export while the battery was not charging — what more capacity could have held.\n`>cap` is demand above the inverter's reported discharge limit — what a second inverter would buy.\n"@;
    if n == 0 {
        "no meter readings in that range\n"@
    } else if thin.len() == 0 {
        tables
    } else {
        tables + "\nwarning: under 95% coverage on "@ + joined(thin, ", "@)
            + " — those totals are short by whatever happened in the gaps.\n"@
    }
}

fn soc_range(day: &DayTotals) -> (out: String)
    ensures
        out@ == soc_text(day@),
{
    match (day.soc_min, day.soc_max) {
        (Some(least), Some(most)) => {
            let mut out = String::new();
            text::push_decimal(&mut out, least.get() as u128);
            out.append("-");
            text::push_decimal(&mut out, most.get() as u128);
            out.append("%");
            assert(out@ =~= soc_text(day@));
            out
        },
        _ => "—".to_owned(),
    }
}

fn cover(day: &DayTotals) -> (out: String)
    ensures
        out@ == coverage_text(day@),
{
    let mut out = String::new();
    text::push_decimal(&mut out, binary64::percent(day.coverage() as u128, 86_400_000));
    out.append("%");
    assert(out@ =~= coverage_text(day@));
    out
}

fn render_house_row(day: &DayTotals) -> (out: String)
    ensures
        out@ == house_row(day@),
{
    let mut out = day.day.to_string();
    out.append("   ");
    push_right(&mut out, cover(day).as_str(), 5);
    out.append("  ");
    push_right(&mut out, day.import.kwh_text().as_str(), 7);
    out.append("  ");
    push_right(&mut out, day.export.kwh_text().as_str(), 7);
    out.append("  ");
    push_right(&mut out, day.unstored_export.kwh_text().as_str(), 8);
    out.append("  ");
    push_right(&mut out, day.charged.kwh_text().as_str(), 7);
    out.append("  ");
    push_right(&mut out, day.discharged.kwh_text().as_str(), 10);
    out.append("  ");
    push_right(&mut out, day.above_cap.kwh_text().as_str(), 5);
    out.append("  ");
    push_right(&mut out, soc_range(day).as_str(), 7);
    out.append("\n");
    out
}

fn render_phase(phase: PhaseTotals) -> (out: String)
    ensures
        out@ == phase_columns(phase),
{
    let mut out = "  ".to_owned();
    push_right(&mut out, phase.import.kwh_text().as_str(), 7);
    out.append("  ");
    push_right(&mut out, phase.export.kwh_text().as_str(), 7);
    out
}

fn render_phase_row(day: &DayTotals) -> (out: String)
    ensures
        out@ == phase_row(day@),
{
    let mut out = day.day.to_string();
    out.append(render_phase(day.phases[0]).as_str());
    out.append(render_phase(day.phases[1]).as_str());
    out.append(render_phase(day.phases[2]).as_str());
    out.append("\n");
    out
}

/// Both tables, ready to print. Kilowatt-hours throughout.
pub fn render(days: &[DayTotals]) -> (out: String)
    ensures
        out@ == rendered(days_of(days@)),
{
    if days.len() == 0 {
        return "no meter readings in that range\n".to_owned();
    }
    let ghost all = days_of(days@);
    let mut out =
        "day           cover   import   export  unstored  charged  discharged   >cap      soc\n".to_owned();
    let ghost header = out@;
    assert(header + house_rows(all, 0) =~= header);
    let mut thin: Vec<String> = Vec::new();
    assert(views(thin@) =~= Seq::<Seq<char>>::empty());
    for i in 0..days.len()
        invariant
            all == days_of(days@),
            out@ == header + house_rows(all, i as int),
            views(thin@) == thin_days(all, i as int),
    {
        let ghost before = out@;
        assert(all[i as int] == days@[i as int]@);
        out.append(render_house_row(&days[i]).as_str());
        assert(out@ =~= header + house_rows(all, i + 1));
        if days[i].covered.as_millis() < 82_080_000 {
            let name = days[i].day.to_string();
            let ghost so_far = thin@;
            thin.push(name);
            assert(views(thin@) =~= views(so_far).push(name@));
        }
    }
    out.append("\nday            A imp    A exp    B imp    B exp    C imp    C exp\n");
    let ghost upper = out@;
    assert(upper + phase_rows(all, 0) =~= upper);
    for i in 0..days.len()
        invariant
            all == days_of(days@),
            out@ == upper + phase_rows(all, i as int),
    {
        assert(all[i as int] == days@[i as int]@);
        out.append(render_phase_row(&days[i]).as_str());
        assert(out@ =~= upper + phase_rows(all, i + 1));
    }
    out.append(
        "\nkWh. `unstored` is export while the battery was not charging — what more capacity could have held.\n`>cap` is demand above the inverter's reported discharge limit — what a second inverter would buy.\n",
    );
    if thin.len() > 0 {
        out.append("\nwarning: under 95% coverage on ");
        out.append(text::join(thin.as_slice(), ", ").as_str());
        out.append(" — those totals are short by whatever happened in the gaps.\n");
    }
    out
}

// --- laws ----------------------------------------------------------------------

/// A gap, and a clock that steps back, add nothing to any day.
pub proof fn a_gap_adds_nothing(days: Map<int, Day>, previous: Sample, current: Sample)
    requires
        current.at.ms < previous.at.ms || current.at.ms > previous.at.ms + MAX_SAMPLE_GAP_MS,
    ensures
        accumulated(days, previous, current) == days,
{
}

/// What could not be stored is part of what was exported.
pub open spec fn unstored_is_exported(day: Day) -> bool {
    0 <= day.unstored_export.parts <= day.export.parts
}

/// On every day of every run, the export that the battery did not take is part
/// of the export.
pub proof fn unstored_export_is_part_of_the_export(events: Seq<Happening>, n: int, key: int)
    requires
        0 <= n <= events.len(),
        tallied(events, n).days.contains_key(key),
    ensures
        unstored_is_exported(tallied(events, n).days[key]),
    decreases n,
{
    if n > 0 {
        let before = tallied(events, n - 1);
        if before.days.contains_key(key) {
            unstored_export_is_part_of_the_export(events, n - 1, key);
        }
        match events[n - 1] {
            Happening::Meter { at, grid, .. } => {
                if let Some(day) = local_day(at) {
                    let sample = Sample {
                        at: at.now,
                        day: Date { day },
                        grid,
                        battery: before.battery,
                    };
                    if let Some(previous) = before.previous {
                        if let Some(dt) = interval(previous.at, sample.at) {
                            let known = touched(before.days, previous.day);
                            if key == previous.day.day {
                                interval_keeps_unstored(known[key], previous, sample, dt);
                            }
                        }
                    }
                }
            },
            _ => {},
        }
    }
}

proof fn interval_keeps_unstored(day: Day, previous: Sample, current: Sample, dt: int)
    requires
        unstored_is_exported(day),
        0 <= dt <= 30_000,
    ensures
        unstored_is_exported(added(day, previous, current, dt)),
{
    let all = previous.spec_export() + current.spec_export();
    let part = previous.spec_unstored_export() + current.spec_unstored_export();
    assert(0 <= part * dt <= all * dt <= 0x1_0000_0000 * 30_000) by (nonlinear_arith)
        requires
            0 <= part <= all <= 0x1_0000_0000,
            0 <= dt <= 30_000,
    ;
}

/// A word ends at a column of a line.
pub open spec fn stands_at(line: Seq<char>, word: Seq<char>, column: int) -> bool {
    word.len() <= column <= line.len() && line.subrange(column - word.len(), column) == word
}

/// What stands in a line stands in what the line begins.
proof fn still_stands(line: Seq<char>, more: Seq<char>, word: Seq<char>, column: int)
    requires
        stands_at(line, word, column),
    ensures
        stands_at(line + more, word, column),
{
    assert((line + more).subrange(column - word.len(), column) =~= line.subrange(
        column - word.len(),
        column,
    ));
}

/// A text that is moved to the right of a column ends where the column does.
proof fn moved_to_the_right(line: Seq<char>, text: Seq<char>, width: int)
    requires
        text.len() <= width,
    ensures
        (line + right(text, width)).len() == line.len() + width,
        stands_at(line + right(text, width), text, line.len() + width),
{
    let whole = line + right(text, width);
    assert(whole.subrange(whole.len() - text.len(), whole.len() as int) =~= text);
}

/// No figure of a day is wider than its column.
pub open spec fn fits_its_columns(day: Day) -> bool {
    &&& day.day.spec_text().len() == 10
    &&& coverage_text(day).len() <= 5
    &&& day.import.spec_kwh_text().len() <= 7
    &&& day.export.spec_kwh_text().len() <= 7
    &&& day.unstored_export.spec_kwh_text().len() <= 8
    &&& day.charged.spec_kwh_text().len() <= 7
    &&& day.discharged.spec_kwh_text().len() <= 10
    &&& day.above_cap.spec_kwh_text().len() <= 5
    &&& soc_text(day).len() <= 7
}

/// Each figure of a day stands in the column that the heading names: its last digit
/// is one place before the last letter of the word. The days stand below each other
/// in their order.
pub proof fn each_figure_stands_under_its_heading(days: Seq<Day>, i: int)
    requires
        0 <= i < days.len(),
        forall|k: int| 0 <= k < days.len() ==> fits_its_columns(#[trigger] days[k]),
    ensures
        ({
            let text = rendered(days);
            let header = text.take(85);
            let row = text.subrange(85 + 84 * i, 85 + 84 * (i + 1));
            &&& stands_at(header, "import"@, 28)
            &&& stands_at(row, days[i].import.spec_kwh_text(), 27)
            &&& stands_at(header, "export"@, 37)
            &&& stands_at(row, days[i].export.spec_kwh_text(), 36)
            &&& stands_at(header, "unstored"@, 47)
            &&& stands_at(row, days[i].unstored_export.spec_kwh_text(), 46)
            &&& stands_at(header, "charged"@, 56)
            &&& stands_at(row, days[i].charged.spec_kwh_text(), 55)
            &&& stands_at(header, "discharged"@, 68)
            &&& stands_at(row, days[i].discharged.spec_kwh_text(), 67)
            &&& stands_at(header, ">cap"@, 75)
            &&& stands_at(row, days[i].above_cap.spec_kwh_text(), 74)
            &&& stands_at(header, "cover"@, 19)
            &&& stands_at(row, coverage_text(days[i]), 18)
            &&& stands_at(header, "soc"@, 84)
            &&& stands_at(row, soc_text(days[i]), 83)
            &&& stands_at(row, days[i].day.spec_text(), 10)
            &&& header[84] == '\n'
            &&& row[83] == '\n'
        }),
{
    let text = rendered(days);
    let heading = "day           cover   import   export  unstored  charged  discharged   >cap      soc\n"@;
    let rows = house_rows(days, days.len() as int);
    heading_words();
    rows_stand_in_order(days, i, days.len() as int);
    heading_comes_first(days);
    let row = text.subrange(85 + 84 * i, 85 + 84 * (i + 1));
    assert(row =~= rows.subrange(84 * i, 84 * (i + 1))) by {
        assert(84 * (i + 1) <= 84 * days.len());
        assert(rows.subrange(84 * i, 84 * (i + 1)) =~= text.subrange(
            85,
            85 + rows.len() as int,
        ).subrange(84 * i, 84 * (i + 1)));
    }
    assert(fits_its_columns(days[i]));
    house_row_has_its_columns(days[i]);
}

/// Where the words of the heading end.
proof fn heading_words()
    ensures
        ({
            let heading = "day           cover   import   export  unstored  charged  discharged   >cap      soc\n"@;
            &&& heading.len() == 85
            &&& heading[84] == '\n'
            &&& stands_at(heading, "cover"@, 19)
            &&& stands_at(heading, "soc"@, 84)
            &&& stands_at(heading, "import"@, 28)
            &&& stands_at(heading, "export"@, 37)
            &&& stands_at(heading, "unstored"@, 47)
            &&& stands_at(heading, "charged"@, 56)
            &&& stands_at(heading, "discharged"@, 68)
            &&& stands_at(heading, ">cap"@, 75)
        }),
{
    let heading = "day           cover   import   export  unstored  charged  discharged   >cap      soc\n"@;
    reveal_strlit("day           cover   import   export  unstored  charged  discharged   >cap      soc\n");
    assert(stands_at(heading, "cover"@, 19)) by {
        reveal_strlit("cover");
        assert(heading.subrange(14, 19) =~= "cover"@);
    }
    assert(stands_at(heading, "soc"@, 84)) by {
        reveal_strlit("soc");
        assert(heading.subrange(81, 84) =~= "soc"@);
    }
    assert(stands_at(heading, "import"@, 28)) by {
        reveal_strlit("import");
        assert(heading.subrange(22, 28) =~= "import"@);
    }
    assert(stands_at(heading, "export"@, 37)) by {
        reveal_strlit("export");
        assert(heading.subrange(31, 37) =~= "export"@);
    }
    assert(stands_at(heading, "unstored"@, 47)) by {
        reveal_strlit("unstored");
        assert(heading.subrange(39, 47) =~= "unstored"@);
    }
    assert(stands_at(heading, "charged"@, 56)) by {
        reveal_strlit("charged");
        assert(heading.subrange(49, 56) =~= "charged"@);
    }
    assert(stands_at(heading, "discharged"@, 68)) by {
        reveal_strlit("discharged");
        assert(heading.subrange(58, 68) =~= "discharged"@);
    }
    assert(stands_at(heading, ">cap"@, 75)) by {
        reveal_strlit(">cap");
        assert(heading.subrange(71, 75) =~= ">cap"@);
    }
}

/// What begins a text still begins it when more follows.
proof fn still_begins(text: Seq<char>, more: Seq<char>, front: Seq<char>)
    requires
        front.len() <= text.len(),
        text.take(front.len() as int) == front,
    ensures
        (text + more).take(front.len() as int) == front,
{
    assert((text + more).take(front.len() as int) =~= text.take(front.len() as int));
}

/// The text begins with the heading and the rows.
proof fn heading_comes_first(days: Seq<Day>)
    requires
        days.len() > 0,
    ensures
        ({
            let heading = "day           cover   import   export  unstored  charged  discharged   >cap      soc\n"@;
            let rows = house_rows(days, days.len() as int);
            let text = rendered(days);
            &&& heading.len() + rows.len() <= text.len()
            &&& text.take(heading.len() as int) == heading
            &&& text.subrange(heading.len() as int, heading.len() + rows.len() as int) == rows
        }),
{
    let n = days.len() as int;
    let heading = "day           cover   import   export  unstored  charged  discharged   >cap      soc\n"@;
    let rows = house_rows(days, n);
    let front = heading + rows;
    let second = "\nday            A imp    A exp    B imp    B exp    C imp    C exp\n"@;
    let legend =
        "\nkWh. `unstored` is export while the battery was not charging — what more capacity could have held.\n`>cap` is demand above the inverter's reported discharge limit — what a second inverter would buy.\n"@;
    let thin = thin_days(days, n);
    assert(front.take(front.len() as int) =~= front);
    still_begins(front, second, front);
    still_begins(front + second, phase_rows(days, n), front);
    still_begins(front + second + phase_rows(days, n), legend, front);
    let tables = front + second + phase_rows(days, n) + legend;
    let warning = "\nwarning: under 95% coverage on "@;
    still_begins(tables, warning, front);
    still_begins(tables + warning, joined(thin, ", "@), front);
    still_begins(
        tables + warning + joined(thin, ", "@),
        " — those totals are short by whatever happened in the gaps.\n"@,
        front,
    );
    let text = rendered(days);
    assert(text.take(front.len() as int) == front);
    assert(text.take(heading.len() as int) =~= front.take(heading.len() as int));
    assert(front.take(heading.len() as int) =~= heading);
    assert(text.subrange(heading.len() as int, front.len() as int) =~= front.subrange(
        heading.len() as int,
        front.len() as int,
    ));
    assert(front.subrange(heading.len() as int, front.len() as int) =~= rows);
}

/// Rows that fit stand one after the other.
proof fn rows_stand_in_order(days: Seq<Day>, i: int, n: int)
    requires
        0 <= i < n <= days.len(),
        forall|k: int| 0 <= k < days.len() ==> fits_its_columns(#[trigger] days[k]),
    ensures
        house_rows(days, n).len() == 84 * n,
        house_rows(days, n).subrange(84 * i, 84 * (i + 1)) == house_row(days[i]),
    decreases n,
{
    assert(fits_its_columns(days[n - 1]));
    house_row_has_its_columns(days[n - 1]);
    if n > 1 {
        rows_stand_in_order(
            days,
            if i < n - 1 {
                i
            } else {
                0
            },
            n - 1,
        );
    }
    let before = house_rows(days, n - 1);
    if i < n - 1 {
        assert(house_rows(days, n).subrange(84 * i, 84 * (i + 1)) =~= before.subrange(
            84 * i,
            84 * (i + 1),
        ));
    } else {
        assert(house_rows(days, n).subrange(84 * i, 84 * (i + 1)) =~= house_row(days[i]));
    }
}

proof fn house_row_has_its_columns(day: Day)
    requires
        fits_its_columns(day),
    ensures
        house_row(day).len() == 84,
        house_row(day)[83] == '\n',
        stands_at(house_row(day), day.day.spec_text(), 10),
        stands_at(house_row(day), coverage_text(day), 18),
        stands_at(house_row(day), soc_text(day), 83),
        stands_at(house_row(day), day.import.spec_kwh_text(), 27),
        stands_at(house_row(day), day.export.spec_kwh_text(), 36),
        stands_at(house_row(day), day.unstored_export.spec_kwh_text(), 46),
        stands_at(house_row(day), day.charged.spec_kwh_text(), 55),
        stands_at(house_row(day), day.discharged.spec_kwh_text(), 67),
        stands_at(house_row(day), day.above_cap.spec_kwh_text(), 74),
{
    reveal_strlit("   ");
    reveal_strlit("  ");
    reveal_strlit("\n");
    let d = day.day.spec_text();
    assert(d.subrange(0, 10) =~= d);
    let l0 = d + "   "@;
    moved_to_the_right(l0, coverage_text(day), 5);
    let l1 = l0 + right(coverage_text(day), 5) + "  "@;
    moved_to_the_right(l1, day.import.spec_kwh_text(), 7);
    let l2 = l1 + right(day.import.spec_kwh_text(), 7) + "  "@;
    moved_to_the_right(l2, day.export.spec_kwh_text(), 7);
    let l3 = l2 + right(day.export.spec_kwh_text(), 7) + "  "@;
    moved_to_the_right(l3, day.unstored_export.spec_kwh_text(), 8);
    let l4 = l3 + right(day.unstored_export.spec_kwh_text(), 8) + "  "@;
    moved_to_the_right(l4, day.charged.spec_kwh_text(), 7);
    let l5 = l4 + right(day.charged.spec_kwh_text(), 7) + "  "@;
    moved_to_the_right(l5, day.discharged.spec_kwh_text(), 10);
    let l6 = l5 + right(day.discharged.spec_kwh_text(), 10) + "  "@;
    moved_to_the_right(l6, day.above_cap.spec_kwh_text(), 5);
    let l7 = l6 + right(day.above_cap.spec_kwh_text(), 5) + "  "@;
    moved_to_the_right(l7, soc_text(day), 7);
    let row = l7 + right(soc_text(day), 7) + "\n"@;
    assert(row == house_row(day));
    still_stands(d, "   "@, d, 10);
    still_stands(l0, right(coverage_text(day), 5), d, 10);
    still_stands(l0 + right(coverage_text(day), 5), "  "@, d, 10);
    still_stands(l1, right(day.import.spec_kwh_text(), 7), d, 10);
    still_stands(l1 + right(day.import.spec_kwh_text(), 7), "  "@, d, 10);
    still_stands(l2, right(day.export.spec_kwh_text(), 7), d, 10);
    still_stands(l2 + right(day.export.spec_kwh_text(), 7), "  "@, d, 10);
    still_stands(l3, right(day.unstored_export.spec_kwh_text(), 8), d, 10);
    still_stands(l3 + right(day.unstored_export.spec_kwh_text(), 8), "  "@, d, 10);
    still_stands(l4, right(day.charged.spec_kwh_text(), 7), d, 10);
    still_stands(l4 + right(day.charged.spec_kwh_text(), 7), "  "@, d, 10);
    still_stands(l5, right(day.discharged.spec_kwh_text(), 10), d, 10);
    still_stands(l5 + right(day.discharged.spec_kwh_text(), 10), "  "@, d, 10);
    still_stands(l6, right(day.above_cap.spec_kwh_text(), 5), d, 10);
    still_stands(l6 + right(day.above_cap.spec_kwh_text(), 5), "  "@, d, 10);
    still_stands(l7, right(soc_text(day), 7), d, 10);
    still_stands(l7 + right(soc_text(day), 7), "\n"@, d, 10);
    still_stands(l0 + right(coverage_text(day), 5), "  "@, coverage_text(day), 18);
    still_stands(l1, right(day.import.spec_kwh_text(), 7), coverage_text(day), 18);
    still_stands(l1 + right(day.import.spec_kwh_text(), 7), "  "@, coverage_text(day), 18);
    still_stands(l2, right(day.export.spec_kwh_text(), 7), coverage_text(day), 18);
    still_stands(l2 + right(day.export.spec_kwh_text(), 7), "  "@, coverage_text(day), 18);
    still_stands(l3, right(day.unstored_export.spec_kwh_text(), 8), coverage_text(day), 18);
    still_stands(l3 + right(day.unstored_export.spec_kwh_text(), 8), "  "@, coverage_text(day), 18);
    still_stands(l4, right(day.charged.spec_kwh_text(), 7), coverage_text(day), 18);
    still_stands(l4 + right(day.charged.spec_kwh_text(), 7), "  "@, coverage_text(day), 18);
    still_stands(l5, right(day.discharged.spec_kwh_text(), 10), coverage_text(day), 18);
    still_stands(l5 + right(day.discharged.spec_kwh_text(), 10), "  "@, coverage_text(day), 18);
    still_stands(l6, right(day.above_cap.spec_kwh_text(), 5), coverage_text(day), 18);
    still_stands(l6 + right(day.above_cap.spec_kwh_text(), 5), "  "@, coverage_text(day), 18);
    still_stands(l7, right(soc_text(day), 7), coverage_text(day), 18);
    still_stands(l7 + right(soc_text(day), 7), "\n"@, coverage_text(day), 18);
    still_stands(l1 + right(day.import.spec_kwh_text(), 7), "  "@, day.import.spec_kwh_text(), 27);
    still_stands(l2, right(day.export.spec_kwh_text(), 7), day.import.spec_kwh_text(), 27);
    still_stands(l2 + right(day.export.spec_kwh_text(), 7), "  "@, day.import.spec_kwh_text(), 27);
    still_stands(l3, right(day.unstored_export.spec_kwh_text(), 8), day.import.spec_kwh_text(), 27);
    still_stands(l3 + right(day.unstored_export.spec_kwh_text(), 8), "  "@, day.import.spec_kwh_text(), 27);
    still_stands(l4, right(day.charged.spec_kwh_text(), 7), day.import.spec_kwh_text(), 27);
    still_stands(l4 + right(day.charged.spec_kwh_text(), 7), "  "@, day.import.spec_kwh_text(), 27);
    still_stands(l5, right(day.discharged.spec_kwh_text(), 10), day.import.spec_kwh_text(), 27);
    still_stands(l5 + right(day.discharged.spec_kwh_text(), 10), "  "@, day.import.spec_kwh_text(), 27);
    still_stands(l6, right(day.above_cap.spec_kwh_text(), 5), day.import.spec_kwh_text(), 27);
    still_stands(l6 + right(day.above_cap.spec_kwh_text(), 5), "  "@, day.import.spec_kwh_text(), 27);
    still_stands(l7, right(soc_text(day), 7), day.import.spec_kwh_text(), 27);
    still_stands(l7 + right(soc_text(day), 7), "\n"@, day.import.spec_kwh_text(), 27);
    still_stands(l2 + right(day.export.spec_kwh_text(), 7), "  "@, day.export.spec_kwh_text(), 36);
    still_stands(l3, right(day.unstored_export.spec_kwh_text(), 8), day.export.spec_kwh_text(), 36);
    still_stands(l3 + right(day.unstored_export.spec_kwh_text(), 8), "  "@, day.export.spec_kwh_text(), 36);
    still_stands(l4, right(day.charged.spec_kwh_text(), 7), day.export.spec_kwh_text(), 36);
    still_stands(l4 + right(day.charged.spec_kwh_text(), 7), "  "@, day.export.spec_kwh_text(), 36);
    still_stands(l5, right(day.discharged.spec_kwh_text(), 10), day.export.spec_kwh_text(), 36);
    still_stands(l5 + right(day.discharged.spec_kwh_text(), 10), "  "@, day.export.spec_kwh_text(), 36);
    still_stands(l6, right(day.above_cap.spec_kwh_text(), 5), day.export.spec_kwh_text(), 36);
    still_stands(l6 + right(day.above_cap.spec_kwh_text(), 5), "  "@, day.export.spec_kwh_text(), 36);
    still_stands(l7, right(soc_text(day), 7), day.export.spec_kwh_text(), 36);
    still_stands(l7 + right(soc_text(day), 7), "\n"@, day.export.spec_kwh_text(), 36);
    still_stands(l3 + right(day.unstored_export.spec_kwh_text(), 8), "  "@, day.unstored_export.spec_kwh_text(), 46);
    still_stands(l4, right(day.charged.spec_kwh_text(), 7), day.unstored_export.spec_kwh_text(), 46);
    still_stands(l4 + right(day.charged.spec_kwh_text(), 7), "  "@, day.unstored_export.spec_kwh_text(), 46);
    still_stands(l5, right(day.discharged.spec_kwh_text(), 10), day.unstored_export.spec_kwh_text(), 46);
    still_stands(l5 + right(day.discharged.spec_kwh_text(), 10), "  "@, day.unstored_export.spec_kwh_text(), 46);
    still_stands(l6, right(day.above_cap.spec_kwh_text(), 5), day.unstored_export.spec_kwh_text(), 46);
    still_stands(l6 + right(day.above_cap.spec_kwh_text(), 5), "  "@, day.unstored_export.spec_kwh_text(), 46);
    still_stands(l7, right(soc_text(day), 7), day.unstored_export.spec_kwh_text(), 46);
    still_stands(l7 + right(soc_text(day), 7), "\n"@, day.unstored_export.spec_kwh_text(), 46);
    still_stands(l4 + right(day.charged.spec_kwh_text(), 7), "  "@, day.charged.spec_kwh_text(), 55);
    still_stands(l5, right(day.discharged.spec_kwh_text(), 10), day.charged.spec_kwh_text(), 55);
    still_stands(l5 + right(day.discharged.spec_kwh_text(), 10), "  "@, day.charged.spec_kwh_text(), 55);
    still_stands(l6, right(day.above_cap.spec_kwh_text(), 5), day.charged.spec_kwh_text(), 55);
    still_stands(l6 + right(day.above_cap.spec_kwh_text(), 5), "  "@, day.charged.spec_kwh_text(), 55);
    still_stands(l7, right(soc_text(day), 7), day.charged.spec_kwh_text(), 55);
    still_stands(l7 + right(soc_text(day), 7), "\n"@, day.charged.spec_kwh_text(), 55);
    still_stands(l5 + right(day.discharged.spec_kwh_text(), 10), "  "@, day.discharged.spec_kwh_text(), 67);
    still_stands(l6, right(day.above_cap.spec_kwh_text(), 5), day.discharged.spec_kwh_text(), 67);
    still_stands(l6 + right(day.above_cap.spec_kwh_text(), 5), "  "@, day.discharged.spec_kwh_text(), 67);
    still_stands(l7, right(soc_text(day), 7), day.discharged.spec_kwh_text(), 67);
    still_stands(l7 + right(soc_text(day), 7), "\n"@, day.discharged.spec_kwh_text(), 67);
    still_stands(l6 + right(day.above_cap.spec_kwh_text(), 5), "  "@, day.above_cap.spec_kwh_text(), 74);
    still_stands(l7, right(soc_text(day), 7), day.above_cap.spec_kwh_text(), 74);
    still_stands(l7 + right(soc_text(day), 7), "\n"@, day.above_cap.spec_kwh_text(), 74);
    still_stands(l7 + right(soc_text(day), 7), "\n"@, soc_text(day), 83);
}

/// No figure of a day's phases is wider than its column.
pub open spec fn phases_fit(day: Day) -> bool {
    &&& day.day.spec_text().len() == 10
    &&& day.a.import.spec_kwh_text().len() <= 7
    &&& day.a.export.spec_kwh_text().len() <= 7
    &&& day.b.import.spec_kwh_text().len() <= 7
    &&& day.b.export.spec_kwh_text().len() <= 7
    &&& day.c.import.spec_kwh_text().len() <= 7
    &&& day.c.export.spec_kwh_text().len() <= 7
}

/// Each figure of a phase stands in the column that names the phase and the
/// direction: its last digit is one place before the last letter of the words.
pub proof fn each_phase_stands_under_its_heading(day: Day)
    requires
        phases_fit(day),
    ensures
        ({
            let heading = "\nday            A imp    A exp    B imp    B exp    C imp    C exp\n"@.skip(1);
            let row = phase_row(day);
            &&& row.len() == 65
            &&& row[64] == '\n'
            &&& stands_at(row, day.day.spec_text(), 10)
            &&& stands_at(heading, "A imp"@, 20)
            &&& stands_at(row, day.a.import.spec_kwh_text(), 19)
            &&& stands_at(heading, "A exp"@, 29)
            &&& stands_at(row, day.a.export.spec_kwh_text(), 28)
            &&& stands_at(heading, "B imp"@, 38)
            &&& stands_at(row, day.b.import.spec_kwh_text(), 37)
            &&& stands_at(heading, "B exp"@, 47)
            &&& stands_at(row, day.b.export.spec_kwh_text(), 46)
            &&& stands_at(heading, "C imp"@, 56)
            &&& stands_at(row, day.c.import.spec_kwh_text(), 55)
            &&& stands_at(heading, "C exp"@, 65)
            &&& stands_at(row, day.c.export.spec_kwh_text(), 64)
        }),
{
    phase_heading_words();
    reveal_strlit("  ");
    reveal_strlit("\n");
    let d = day.day.spec_text();
    assert(d.subrange(0, 10) =~= d);
    let l0 = d + "  "@;
    moved_to_the_right(l0, day.a.import.spec_kwh_text(), 7);
    let l1 = l0 + right(day.a.import.spec_kwh_text(), 7) + "  "@;
    moved_to_the_right(l1, day.a.export.spec_kwh_text(), 7);
    let l2 = l1 + right(day.a.export.spec_kwh_text(), 7) + "  "@;
    moved_to_the_right(l2, day.b.import.spec_kwh_text(), 7);
    let l3 = l2 + right(day.b.import.spec_kwh_text(), 7) + "  "@;
    moved_to_the_right(l3, day.b.export.spec_kwh_text(), 7);
    let l4 = l3 + right(day.b.export.spec_kwh_text(), 7) + "  "@;
    moved_to_the_right(l4, day.c.import.spec_kwh_text(), 7);
    let l5 = l4 + right(day.c.import.spec_kwh_text(), 7) + "  "@;
    moved_to_the_right(l5, day.c.export.spec_kwh_text(), 7);
    let row = l5 + right(day.c.export.spec_kwh_text(), 7) + "\n"@;
    assert(row =~= phase_row(day));
    still_stands(d, "  "@, d, 10);
    still_stands(l0, right(day.a.import.spec_kwh_text(), 7), d, 10);
    still_stands(l0 + right(day.a.import.spec_kwh_text(), 7), "  "@, d, 10);
    still_stands(l1, right(day.a.export.spec_kwh_text(), 7), d, 10);
    still_stands(l1 + right(day.a.export.spec_kwh_text(), 7), "  "@, d, 10);
    still_stands(l2, right(day.b.import.spec_kwh_text(), 7), d, 10);
    still_stands(l2 + right(day.b.import.spec_kwh_text(), 7), "  "@, d, 10);
    still_stands(l3, right(day.b.export.spec_kwh_text(), 7), d, 10);
    still_stands(l3 + right(day.b.export.spec_kwh_text(), 7), "  "@, d, 10);
    still_stands(l4, right(day.c.import.spec_kwh_text(), 7), d, 10);
    still_stands(l4 + right(day.c.import.spec_kwh_text(), 7), "  "@, d, 10);
    still_stands(l5, right(day.c.export.spec_kwh_text(), 7), d, 10);
    still_stands(l5 + right(day.c.export.spec_kwh_text(), 7), "\n"@, d, 10);
    still_stands(l0 + right(day.a.import.spec_kwh_text(), 7), "  "@, day.a.import.spec_kwh_text(), 19);
    still_stands(l1, right(day.a.export.spec_kwh_text(), 7), day.a.import.spec_kwh_text(), 19);
    still_stands(l1 + right(day.a.export.spec_kwh_text(), 7), "  "@, day.a.import.spec_kwh_text(), 19);
    still_stands(l2, right(day.b.import.spec_kwh_text(), 7), day.a.import.spec_kwh_text(), 19);
    still_stands(l2 + right(day.b.import.spec_kwh_text(), 7), "  "@, day.a.import.spec_kwh_text(), 19);
    still_stands(l3, right(day.b.export.spec_kwh_text(), 7), day.a.import.spec_kwh_text(), 19);
    still_stands(l3 + right(day.b.export.spec_kwh_text(), 7), "  "@, day.a.import.spec_kwh_text(), 19);
    still_stands(l4, right(day.c.import.spec_kwh_text(), 7), day.a.import.spec_kwh_text(), 19);
    still_stands(l4 + right(day.c.import.spec_kwh_text(), 7), "  "@, day.a.import.spec_kwh_text(), 19);
    still_stands(l5, right(day.c.export.spec_kwh_text(), 7), day.a.import.spec_kwh_text(), 19);
    still_stands(l5 + right(day.c.export.spec_kwh_text(), 7), "\n"@, day.a.import.spec_kwh_text(), 19);
    still_stands(l1 + right(day.a.export.spec_kwh_text(), 7), "  "@, day.a.export.spec_kwh_text(), 28);
    still_stands(l2, right(day.b.import.spec_kwh_text(), 7), day.a.export.spec_kwh_text(), 28);
    still_stands(l2 + right(day.b.import.spec_kwh_text(), 7), "  "@, day.a.export.spec_kwh_text(), 28);
    still_stands(l3, right(day.b.export.spec_kwh_text(), 7), day.a.export.spec_kwh_text(), 28);
    still_stands(l3 + right(day.b.export.spec_kwh_text(), 7), "  "@, day.a.export.spec_kwh_text(), 28);
    still_stands(l4, right(day.c.import.spec_kwh_text(), 7), day.a.export.spec_kwh_text(), 28);
    still_stands(l4 + right(day.c.import.spec_kwh_text(), 7), "  "@, day.a.export.spec_kwh_text(), 28);
    still_stands(l5, right(day.c.export.spec_kwh_text(), 7), day.a.export.spec_kwh_text(), 28);
    still_stands(l5 + right(day.c.export.spec_kwh_text(), 7), "\n"@, day.a.export.spec_kwh_text(), 28);
    still_stands(l2 + right(day.b.import.spec_kwh_text(), 7), "  "@, day.b.import.spec_kwh_text(), 37);
    still_stands(l3, right(day.b.export.spec_kwh_text(), 7), day.b.import.spec_kwh_text(), 37);
    still_stands(l3 + right(day.b.export.spec_kwh_text(), 7), "  "@, day.b.import.spec_kwh_text(), 37);
    still_stands(l4, right(day.c.import.spec_kwh_text(), 7), day.b.import.spec_kwh_text(), 37);
    still_stands(l4 + right(day.c.import.spec_kwh_text(), 7), "  "@, day.b.import.spec_kwh_text(), 37);
    still_stands(l5, right(day.c.export.spec_kwh_text(), 7), day.b.import.spec_kwh_text(), 37);
    still_stands(l5 + right(day.c.export.spec_kwh_text(), 7), "\n"@, day.b.import.spec_kwh_text(), 37);
    still_stands(l3 + right(day.b.export.spec_kwh_text(), 7), "  "@, day.b.export.spec_kwh_text(), 46);
    still_stands(l4, right(day.c.import.spec_kwh_text(), 7), day.b.export.spec_kwh_text(), 46);
    still_stands(l4 + right(day.c.import.spec_kwh_text(), 7), "  "@, day.b.export.spec_kwh_text(), 46);
    still_stands(l5, right(day.c.export.spec_kwh_text(), 7), day.b.export.spec_kwh_text(), 46);
    still_stands(l5 + right(day.c.export.spec_kwh_text(), 7), "\n"@, day.b.export.spec_kwh_text(), 46);
    still_stands(l4 + right(day.c.import.spec_kwh_text(), 7), "  "@, day.c.import.spec_kwh_text(), 55);
    still_stands(l5, right(day.c.export.spec_kwh_text(), 7), day.c.import.spec_kwh_text(), 55);
    still_stands(l5 + right(day.c.export.spec_kwh_text(), 7), "\n"@, day.c.import.spec_kwh_text(), 55);
    still_stands(l5 + right(day.c.export.spec_kwh_text(), 7), "\n"@, day.c.export.spec_kwh_text(), 64);
}

/// Where the words of the heading of phases end.
proof fn phase_heading_words()
    ensures
        ({
            let heading = "\nday            A imp    A exp    B imp    B exp    C imp    C exp\n"@.skip(1);
            &&& stands_at(heading, "A imp"@, 20)
            &&& stands_at(heading, "A exp"@, 29)
            &&& stands_at(heading, "B imp"@, 38)
            &&& stands_at(heading, "B exp"@, 47)
            &&& stands_at(heading, "C imp"@, 56)
            &&& stands_at(heading, "C exp"@, 65)
        }),
{
    let heading = "\nday            A imp    A exp    B imp    B exp    C imp    C exp\n"@.skip(1);
    reveal_strlit("\nday            A imp    A exp    B imp    B exp    C imp    C exp\n");
    assert(stands_at(heading, "A imp"@, 20)) by {
        reveal_strlit("A imp");
        assert(heading.subrange(15, 20) =~= "A imp"@);
    }
    assert(stands_at(heading, "A exp"@, 29)) by {
        reveal_strlit("A exp");
        assert(heading.subrange(24, 29) =~= "A exp"@);
    }
    assert(stands_at(heading, "B imp"@, 38)) by {
        reveal_strlit("B imp");
        assert(heading.subrange(33, 38) =~= "B imp"@);
    }
    assert(stands_at(heading, "B exp"@, 47)) by {
        reveal_strlit("B exp");
        assert(heading.subrange(42, 47) =~= "B exp"@);
    }
    assert(stands_at(heading, "C imp"@, 56)) by {
        reveal_strlit("C imp");
        assert(heading.subrange(51, 56) =~= "C imp"@);
    }
    assert(stands_at(heading, "C exp"@, 65)) by {
        reveal_strlit("C exp");
        assert(heading.subrange(60, 65) =~= "C exp"@);
    }
}

/// A day is warned of exactly if less than 95 % of it is covered.
pub proof fn a_thin_day_is_warned_of(days: Seq<Day>, i: int, n: int)
    requires
        0 <= i < n <= days.len(),
        forall|k: int|
            0 <= k < n && k != i ==> (#[trigger] days[k]).day.spec_text()
                != days[i].day.spec_text(),
    ensures
        thin_days(days, n).contains(days[i].day.spec_text()) <==> 100 * days[i].covered@ < 95 * 24
            * 60 * 60 * 1000,
    decreases n,
{
    let name = days[i].day.spec_text();
    let before = thin_days(days, n - 1);
    if i == n - 1 {
        names_come_from_days(days, name, n - 1);
        if is_thin(days[i]) {
            assert(before.push(name).last() == name);
            assert(thin_days(days, n)[before.len() as int] == name);
        }
    } else {
        a_thin_day_is_warned_of(days, i, n - 1);
        assert(days[n - 1].day.spec_text() != name);
        if is_thin(days[n - 1]) {
            let after = before.push(days[n - 1].day.spec_text());
            if before.contains(name) {
                let k = choose|k: int| 0 <= k < before.len() && before[k] == name;
                assert(after[k] == name);
            }
            if after.contains(name) {
                let k = choose|k: int| 0 <= k < after.len() && after[k] == name;
                assert(before[k] == name);
            }
        }
    }
}

proof fn names_come_from_days(days: Seq<Day>, name: Seq<char>, n: int)
    requires
        0 <= n <= days.len(),
        forall|k: int| 0 <= k < n ==> (#[trigger] days[k]).day.spec_text() != name,
    ensures
        !thin_days(days, n).contains(name),
    decreases n,
{
    if n > 0 {
        names_come_from_days(days, name, n - 1);
        assert(days[n - 1].day.spec_text() != name);
        let before = thin_days(days, n - 1);
        if is_thin(days[n - 1]) {
            let after = before.push(days[n - 1].day.spec_text());
            if after.contains(name) {
                let k = choose|k: int| 0 <= k < after.len() && after[k] == name;
                assert(before[k] == name);
            }
        }
    }
}

/// A reading is either import or export, in whole watts: their difference is what the
/// meter says. So it is with a battery, by the sign of its flow.
pub proof fn a_sample_says_which_way_power_flows(sample: Sample, w: int, fraction: int)
    requires
        sample.grid.total.mw == w * 1000 + fraction,
        -1000 < fraction < 1000,
        w > 0 ==> fraction >= 0,
        w < 0 ==> fraction <= 0,
        i32::MIN < w <= i32::MAX,
    ensures
        sample.spec_import() - sample.spec_export() == w,
        sample.spec_import() >= 0,
        sample.spec_export() >= 0,
        sample.spec_import() == 0 || sample.spec_export() == 0,
        sample.battery matches Some(battery) ==> battery.current_power.w > i32::MIN ==> {
            &&& sample.spec_discharging() - sample.spec_charging() == battery.current_power.w
            &&& sample.spec_discharging() >= 0
            &&& sample.spec_charging() >= 0
            &&& sample.spec_discharging() == 0 || sample.spec_charging() == 0
            &&& battery.current_power.w < 0 ==> sample.spec_unstored_export() == 0
            &&& battery.current_power.w >= 0 ==> sample.spec_unstored_export()
                == sample.spec_export()
        },
        sample.battery is None ==> sample.spec_discharging() == 0 && sample.spec_charging() == 0
            && sample.spec_unstored_export() == 0 && sample.spec_above_cap() == 0,
{
}

/// Demand above the cap is what the inverter could not have delivered of what the
/// house draws with the battery's own flow taken out.
pub proof fn demand_above_the_cap_is_out_of_reach(
    sample: Sample,
    battery: BatteryState,
    demand: int,
    fraction: int,
)
    requires
        sample.battery == Some(battery),
        sample.grid.total.mw + 1000 * battery.current_power.w == demand * 1000 + fraction,
        -1000 < fraction < 1000,
        demand > 0 ==> fraction >= 0,
        demand < 0 ==> fraction <= 0,
        i32::MIN < demand <= i32::MAX,
        battery.max_discharge_power.watts <= i32::MAX,
    ensures
        demand <= battery.max_discharge_power.watts ==> sample.spec_above_cap() == 0,
        demand > battery.max_discharge_power.watts ==> sample.spec_above_cap()
            + battery.max_discharge_power.watts == demand,
{
}

/// An interval adds to each total the energy of its own flow: of two readings the
/// mean, over the time between them. A watt over a millisecond is two parts.
pub proof fn an_interval_adds_each_flow_to_its_total(
    day: Day,
    previous: Sample,
    current: Sample,
    dt: int,
)
    requires
        0 <= dt <= 30_000,
        day.covered@ <= 1_000_000_000,
        day.covered.millis < 1000,
        ({
            let roomy = |e: WattHours|
                -0x1000_0000_0000_0000_0000_0000 < e.parts < 0x1000_0000_0000_0000_0000_0000;
            roomy(day.import) && roomy(day.export) && roomy(day.unstored_export) && roomy(
                day.charged,
            ) && roomy(day.discharged) && roomy(day.above_cap)
        }),
    ensures
        ({
            let after = added(day, previous, current, dt);
            &&& after.import.parts - day.import.parts == (previous.spec_import()
                + current.spec_import()) * dt
            &&& after.export.parts - day.export.parts == (previous.spec_export()
                + current.spec_export()) * dt
            &&& after.unstored_export.parts - day.unstored_export.parts == (
            previous.spec_unstored_export() + current.spec_unstored_export()) * dt
            &&& after.charged.parts - day.charged.parts == (previous.spec_charging()
                + current.spec_charging()) * dt
            &&& after.discharged.parts - day.discharged.parts == (previous.spec_discharging()
                + current.spec_discharging()) * dt
            &&& after.above_cap.parts - day.above_cap.parts == (previous.spec_above_cap()
                + current.spec_above_cap()) * dt
            &&& after.covered@ == day.covered@ + dt
            &&& after.day == day.day
            &&& after.soc_min == day.soc_min
            &&& after.soc_max == day.soc_max
        }),
{
    small_energy(previous.spec_import(), current.spec_import(), dt);
    small_energy(previous.spec_export(), current.spec_export(), dt);
    small_energy(previous.spec_unstored_export(), current.spec_unstored_export(), dt);
    small_energy(previous.spec_charging(), current.spec_charging(), dt);
    small_energy(previous.spec_discharging(), current.spec_discharging(), dt);
    small_energy(previous.spec_above_cap(), current.spec_above_cap(), dt);
}

proof fn small_energy(from: int, to: int, dt: int)
    requires
        0 <= from <= i32::MAX,
        0 <= to <= i32::MAX,
        0 <= dt <= 30_000,
    ensures
        0 <= (from + to) * dt <= 0x1_0000_0000 * 30_000,
        energy(from, to, dt).parts == (from + to) * dt,
{
    assert(0 <= (from + to) * dt <= 0x1_0000_0000 * 30_000) by (nonlinear_arith)
        requires
            0 <= from <= i32::MAX,
            0 <= to <= i32::MAX,
            0 <= dt <= 30_000,
    ;
}

/// Each phase gets what its own wire carried, import apart from export.
pub proof fn an_interval_adds_each_phase_to_itself(
    day: Day,
    previous: Sample,
    current: Sample,
    dt: int,
    was: (int, int, int),
    is: (int, int, int),
)
    requires
        0 <= dt <= 30_000,
        previous.grid.phases@[0].mw == was.0 * 1000,
        previous.grid.phases@[1].mw == was.1 * 1000,
        previous.grid.phases@[2].mw == was.2 * 1000,
        current.grid.phases@[0].mw == is.0 * 1000,
        current.grid.phases@[1].mw == is.1 * 1000,
        current.grid.phases@[2].mw == is.2 * 1000,
        -1_000_000 < was.0 < 1_000_000,
        -1_000_000 < was.1 < 1_000_000,
        -1_000_000 < was.2 < 1_000_000,
        -1_000_000 < is.0 < 1_000_000,
        -1_000_000 < is.1 < 1_000_000,
        -1_000_000 < is.2 < 1_000_000,
        day.a == PhaseTotals::zero(),
        day.b == PhaseTotals::zero(),
        day.c == PhaseTotals::zero(),
    ensures
        ({
            let after = added(day, previous, current, dt);
            &&& was.0 >= 0 && is.0 >= 0 ==> after.a.import.parts == (was.0 + is.0) * dt
                && after.a.export.parts == 0
            &&& was.0 <= 0 && is.0 <= 0 ==> after.a.export.parts == -(was.0 + is.0) * dt
                && after.a.import.parts == 0
            &&& was.1 >= 0 && is.1 >= 0 ==> after.b.import.parts == (was.1 + is.1) * dt
                && after.b.export.parts == 0
            &&& was.1 <= 0 && is.1 <= 0 ==> after.b.export.parts == -(was.1 + is.1) * dt
                && after.b.import.parts == 0
            &&& was.2 >= 0 && is.2 >= 0 ==> after.c.import.parts == (was.2 + is.2) * dt
                && after.c.export.parts == 0
            &&& was.2 <= 0 && is.2 <= 0 ==> after.c.export.parts == -(was.2 + is.2) * dt
                && after.c.import.parts == 0
        }),
{
    phase_of_one_direction(previous.grid.phases@[0], current.grid.phases@[0], was.0, is.0, dt);
    phase_of_one_direction(previous.grid.phases@[1], current.grid.phases@[1], was.1, is.1, dt);
    phase_of_one_direction(previous.grid.phases@[2], current.grid.phases@[2], was.2, is.2, dt);
}

proof fn phase_of_one_direction(before: GridPower, after: GridPower, was: int, is: int, dt: int)
    requires
        before.mw == was * 1000,
        after.mw == is * 1000,
        -1_000_000 < was < 1_000_000,
        -1_000_000 < is < 1_000_000,
        0 <= dt <= 30_000,
    ensures
        ({
            let totals = phase_added(PhaseTotals::zero(), before, after, dt);
            &&& was >= 0 && is >= 0 ==> totals.import.parts == (was + is) * dt
                && totals.export.parts == 0
            &&& was <= 0 && is <= 0 ==> totals.export.parts == -(was + is) * dt
                && totals.import.parts == 0
        }),
{
    assert(before.spec_importing() == was && before.spec_exporting() == -was);
    assert(after.spec_importing() == is && after.spec_exporting() == -is);
    let into = at_least_zero(was) + at_least_zero(is);
    let out = at_least_zero(-was) + at_least_zero(-is);
    small_energy(at_least_zero(was), at_least_zero(is), dt);
    small_energy(at_least_zero(-was), at_least_zero(-is), dt);
    assert(into * dt == 0 || into != 0) by (nonlinear_arith);
    assert(out * dt == 0 || out != 0) by (nonlinear_arith);
}

/// Two readings count together exactly if no more than half a minute lies between
/// them, and then for the day that the first of them falls in. Every other day stays
/// what it was.
pub proof fn an_interval_counts_for_the_day_it_starts_in(
    days: Map<int, Day>,
    previous: Sample,
    current: Sample,
    other: int,
)
    ensures
        ({
            let after = accumulated(days, previous, current);
            let dt = current.at.ms - previous.at.ms;
            let key = previous.day.day as int;
            &&& other != key ==> (after.contains_key(other) <==> days.contains_key(other)) && (
            days.contains_key(other) ==> after[other] == days[other])
            &&& 0 <= dt <= 30_000 ==> after.contains_key(key) && (days.contains_key(key)
                ==> after[key] == added(days[key], previous, current, dt))
            &&& 0 <= dt <= 30_000 && !days.contains_key(key) ==> after[key] == added(
                blank(previous.day),
                previous,
                current,
                dt,
            )
            &&& dt < 0 || dt > 30_000 ==> after == days
        }),
{
}

/// A day that nothing is known of has nothing of anything.
pub proof fn a_blank_day_is_empty(day: Date)
    ensures
        ({
            let none = blank(day);
            &&& none.day == day
            &&& none.covered@ == 0
            &&& none.import.parts == 0
            &&& none.export.parts == 0
            &&& none.unstored_export.parts == 0
            &&& none.charged.parts == 0
            &&& none.discharged.parts == 0
            &&& none.above_cap.parts == 0
            &&& none.soc_min is None
            &&& none.soc_max is None
            &&& none.a.import.parts == 0 && none.a.export.parts == 0
            &&& none.b.import.parts == 0 && none.b.export.parts == 0
            &&& none.c.import.parts == 0 && none.c.export.parts == 0
        }),
{
}

/// A day's range of charge holds every state that was seen on it, and no more.
pub proof fn a_range_of_charge_holds_what_was_seen(day: Day, soc: int)
    ensures
        ({
            let after = soc_observed(day, soc);
            &&& after.soc_min matches Some(least) && least <= soc && (day.soc_min matches Some(
                before,
            ) ==> least <= before) && (least == soc || day.soc_min == Some(least))
            &&& after.soc_max matches Some(most) && most >= soc && (day.soc_max matches Some(
                before,
            ) ==> most >= before) && (most == soc || day.soc_max == Some(most))
            &&& after.import == day.import && after.export == day.export
            &&& after.charged == day.charged && after.discharged == day.discharged
            &&& after.covered == day.covered && after.day == day.day
        }),
{
}

/// A reading counts with the battery that was last heard of before it, from whatever
/// device, and a silence counts for nothing.
pub proof fn a_reading_counts_with_the_last_known_battery(events: Seq<Happening>, n: int)
    requires
        0 < n <= events.len(),
    ensures
        ({
            let before = tallied(events, n - 1);
            let after = tallied(events, n);
            &&& events[n - 1] is MqttTimeout ==> after == before
            &&& events[n - 1] matches Happening::DeviceUpdate { at, id, measurement } ==> (
            measurement matches Measurement::Battery(state) && after.battery == Some(state)
                && after.days == before.days && after.previous == before.previous)
            &&& events[n - 1] matches Happening::Meter { at, grid, solar } ==> {
                &&& after.battery == before.battery
                &&& local_day(at) matches Some(day) ==> {
                    &&& after.previous matches Some(sample)
                    &&& sample.at == at.now
                    &&& sample.grid == grid
                    &&& sample.day.day == day
                    &&& sample.battery == before.battery
                    &&& after.days == seen(
                        if before.previous is Some {
                            accumulated(before.days, before.previous->0, sample)
                        } else {
                            before.days
                        },
                        sample,
                    )
                }
            }
        }),
{
}

/// The local date of a clock has the clock's day of the year, in the year of the
/// date in UTC or one next to it, and no such date lies nearer.
pub proof fn the_local_date_is_the_nearest(clock: Clock, year: i32, utc: int)
    requires
        day_number(utc_day(clock.now.ms as int)) matches Some(date) && date.day == utc,
        year_and_ordinal(utc as i32) matches Some(read) && read.0 == year,
        i32::MIN < year < i32::MAX,
    ensures
        ({
            let n = clock.day_ordinal;
            let last = day_of_year((year - 1) as i32, n);
            let this = day_of_year(year, n);
            let next = day_of_year((year + 1) as i32, n);
            &&& local_day(clock) is Some <==> last is Some || this is Some || next is Some
            &&& local_day(clock) matches Some(d) ==> {
                &&& last == Some(d) || this == Some(d) || next == Some(d)
                &&& last matches Some(e) ==> -(e - utc) >= d - utc >= e - utc || e - utc >= d - utc
                    >= -(e - utc)
                &&& this matches Some(e) ==> -(e - utc) >= d - utc >= e - utc || e - utc >= d - utc
                    >= -(e - utc)
                &&& next matches Some(e) ==> -(e - utc) >= d - utc >= e - utc || e - utc >= d - utc
                    >= -(e - utc)
            }
        }),
{
}

/// The days of a report are those that were seen, each once and oldest first.
pub proof fn days_are_listed_oldest_first(list: Seq<Day>, days: Map<int, Day>, i: int, key: int)
    requires
        is_listing(list, days),
    ensures
        0 < i < list.len() ==> list[i - 1].day.day < list[i].day.day,
        0 <= i < list.len() ==> days.contains_key(list[i].day.day as int)
            && days[list[i].day.day as int] == list[i],
        days.contains_key(key) ==> list.contains(days[key]),
{
    if days.contains_key(key) {
        let k = choose|k: int| 0 <= k < list.len() && (#[trigger] list[k]).day.day == key;
        assert(list[k] == days[key]);
    }
}

} // verus!
