//! Round-trip efficiency over a rolling day.
//!
//! Charge and discharge power are integrated over the time between polls. What
//! is older than the window no longer counts.

use vstd::prelude::*;

use crate::ratio;
use crate::ratio::{at_most_u64, root_of};
use crate::units::{
    saturate_i64, saturated_i64, Duration, KiloWattHours, Percent, Soc, Timestamp, WattHours, Watts,
};

verus! {

/// How far back samples count, in milliseconds.
pub const WINDOW_MS: i64 = 86_400_000;

/// The energy between two polls.
#[derive(Debug, Clone, Copy, PartialEq, Eq, Structural)]
pub struct Sample {
    /// When the later poll was, on a clock that never goes back.
    pub instant: Timestamp,
    /// The same by the calendar, for the file.
    pub unix: Timestamp,
    pub charge_wh: WattHours,
    pub discharge_wh: WattHours,
}

/// One sample in the state file.
#[derive(Debug, Clone, Copy, PartialEq, Eq, Structural)]
pub struct PersistedSample {
    pub ts: Timestamp,
    pub charge_wh: WattHours,
    pub discharge_wh: WattHours,
}

/// What the state file holds.
#[derive(Debug, PartialEq)]
pub struct PersistedState {
    pub samples: Vec<PersistedSample>,
    pub last_charge_power: Watts,
    pub last_discharge_power: Watts,
    pub last_sample_ts: Option<Timestamp>,
}

/// Tracks how much of the energy that goes in comes out.
#[derive(Debug)]
pub struct RteTracker {
    pub samples: Vec<Sample>,
    pub last_sample_time: Option<Timestamp>,
    pub last_sample_unix: Option<Timestamp>,
    pub last_charge_power: Watts,
    pub last_discharge_power: Watts,
}

/// The samples from the first that is not before `cutoff` on.
pub open spec fn pruned(samples: Seq<Sample>, cutoff: int) -> Seq<Sample>
    decreases samples.len(),
{
    if samples.len() > 0 && samples[0].instant.ms < cutoff {
        pruned(samples.skip(1), cutoff)
    } else {
        samples
    }
}

pub open spec fn charges(samples: Seq<Sample>) -> Seq<WattHours> {
    samples.map_values(|s: Sample| s.charge_wh)
}

pub open spec fn discharges(samples: Seq<Sample>) -> Seq<WattHours> {
    samples.map_values(|s: Sample| s.discharge_wh)
}

/// The time from `earlier` to `later`, or none.
pub open spec fn span(earlier: Timestamp, later: Timestamp) -> int {
    if later.ms > earlier.ms {
        later.ms - earlier.ms
    } else {
        0
    }
}

/// The sample that a poll ends.
pub open spec fn sample_of(
    tracker: RteTracker,
    last: Timestamp,
    now: Timestamp,
    unix: Timestamp,
    charge: Watts,
    discharge: Watts,
) -> Sample {
    Sample {
        instant: now,
        unix,
        charge_wh: WattHours {
            parts: ((tracker.last_charge_power.w + charge.w) * span(last, now)) as i128,
        },
        discharge_wh: WattHours {
            parts: ((tracker.last_discharge_power.w + discharge.w) * span(last, now)) as i128,
        },
    }
}

/// The samples once a poll has come in, before any of them is dropped.
pub open spec fn sampled(
    tracker: RteTracker,
    now: Timestamp,
    unix: Timestamp,
    charge: Watts,
    discharge: Watts,
) -> Seq<Sample> {
    match tracker.last_sample_time {
        Some(last) => tracker.samples@.push(
            sample_of(tracker, last, now, unix, charge, discharge),
        ),
        None => tracker.samples@,
    }
}

/// The efficiency, in millionths of a percent. None before a whole watt-hour has
/// gone in. A poor figure, below 70 %, is smoothed by its root; where less than
/// nothing has come out, that root is no number.
pub open spec fn efficiency(charged: int, discharged: int) -> Option<Option<int>> {
    if charged < 7_200_000 {
        None
    } else if discharged < 0 {
        Some(None)
    } else if discharged * 10 < charged * 7 {
        Some(Some(root_of(discharged * 10_000_000_000_000_000 / charged)))
    } else {
        Some(Some(at_most_u64(discharged * 100_000_000 / charged)))
    }
}

/// What can be recovered from packs of `capacity` between two states of charge,
/// in millionths of a kilowatt-hour. With an efficiency that is no number, nor
/// is this.
pub open spec fn usable(
    capacity: int,
    soc: int,
    min_soc: int,
    rte: Option<Option<int>>,
) -> Option<int> {
    if capacity <= 0 || soc <= min_soc {
        Some(0)
    } else {
        match rte {
            None => Some(recoverable(capacity, soc - min_soc, 85_000_000)),
            Some(Some(percent)) => Some(recoverable(capacity, soc - min_soc, percent)),
            Some(None) => None,
        }
    }
}

pub open spec fn recoverable(capacity: int, share: int, percent: int) -> int {
    at_most_u64(capacity * (share * percent) / 72_000_000_000_000)
}

impl RteTracker {
    /// A tracker that knows nothing yet.
    pub fn new() -> (out: Self)
        ensures
            out.samples@ == Seq::<Sample>::empty(),
            out.last_sample_time is None,
            out.last_sample_unix is None,
            out.last_charge_power == Watts::zero(),
            out.last_discharge_power == Watts::zero(),
    {
        RteTracker {
            samples: Vec::new(),
            last_sample_time: None,
            last_sample_unix: None,
            last_charge_power: Watts::zero(),
            last_discharge_power: Watts::zero(),
        }
    }

    /// Takes in one poll: the power flowing into the battery, and the power
    /// flowing out.
    pub fn record_at(&mut self, now: Timestamp, unix: Timestamp, charge: Watts, discharge: Watts)
        ensures
            final(self).samples@ == pruned(
                sampled(*old(self), now, unix, charge, discharge),
                saturated_i64(now.ms - WINDOW_MS),
            ),
            final(self).last_sample_time == Some(now),
            final(self).last_sample_unix == Some(unix),
            final(self).last_charge_power == charge,
            final(self).last_discharge_power == discharge,
    {
        if let Some(last) = self.last_sample_time {
            let ms: i128 = now.as_millis() as i128 - last.as_millis() as i128;
            let dt = if ms > 0 {
                Duration::from_millis(ms as u64)
            } else {
                Duration::zero()
            };
            let sample = Sample {
                instant: now,
                unix,
                charge_wh: WattHours::integrate(self.last_charge_power, charge, dt),
                discharge_wh: WattHours::integrate(self.last_discharge_power, discharge, dt),
            };
            self.samples.push(sample);
        }
        self.last_sample_time = Some(now);
        self.last_sample_unix = Some(unix);
        self.last_charge_power = charge;
        self.last_discharge_power = discharge;
        self.prune(now);
    }

    /// Drops what is older than the window.
    fn prune(&mut self, now: Timestamp)
        ensures
            final(self).samples@ == pruned(
                old(self).samples@,
                saturated_i64(now.ms - WINDOW_MS),
            ),
            final(self).last_sample_time == old(self).last_sample_time,
            final(self).last_sample_unix == old(self).last_sample_unix,
            final(self).last_charge_power == old(self).last_charge_power,
            final(self).last_discharge_power == old(self).last_discharge_power,
    {
        let cutoff: i64 = saturate_i64(now.as_millis() as i128 - WINDOW_MS as i128);
        let mut gone: usize = 0;
        let ghost all = self.samples@;
        assert(all.skip(0) =~= all);
        while gone < self.samples.len() && self.samples[gone].instant.as_millis() < cutoff
            invariant
                all == self.samples@,
                gone <= self.samples.len(),
                pruned(all, cutoff as int) == pruned(all.skip(gone as int), cutoff as int),
            decreases self.samples.len() - gone,
        {
            assert(all.skip(gone as int).skip(1) =~= all.skip(gone + 1));
            gone += 1;
        }
        let mut kept: Vec<Sample> = Vec::new();
        for i in gone..self.samples.len()
            invariant
                gone <= all.len(),
                all == self.samples@,
                kept@ == all.subrange(gone as int, i as int),
        {
            kept.push(self.samples[i]);
            assert(kept@ =~= all.subrange(gone as int, i + 1));
        }
        assert(kept@ =~= all.skip(gone as int));
        self.samples = kept;
    }

    pub open spec fn charged(self) -> WattHours {
        WattHours::spec_sum(charges(self.samples@))
    }

    pub open spec fn discharged(self) -> WattHours {
        WattHours::spec_sum(discharges(self.samples@))
    }

    /// The energy that went in, over the window.
    pub fn total_charge_wh(&self) -> (out: WattHours)
        ensures
            out == self.charged(),
    {
        let mut out = WattHours::zero();
        let ghost all = charges(self.samples@);
        for i in 0..self.samples.len()
            invariant
                all == charges(self.samples@),
                out == WattHours::spec_sum(all.take(i as int)),
        {
            out = out.plus(self.samples[i].charge_wh);
            assert(all.take(i + 1).drop_last() =~= all.take(i as int));
        }
        assert(all.take(all.len() as int) =~= all);
        out
    }

    /// The energy that came out, over the window.
    pub fn total_discharge_wh(&self) -> (out: WattHours)
        ensures
            out == self.discharged(),
    {
        let mut out = WattHours::zero();
        let ghost all = discharges(self.samples@);
        for i in 0..self.samples.len()
            invariant
                all == discharges(self.samples@),
                out == WattHours::spec_sum(all.take(i as int)),
        {
            out = out.plus(self.samples[i].discharge_wh);
            assert(all.take(i + 1).drop_last() =~= all.take(i as int));
        }
        assert(all.take(all.len() as int) =~= all);
        out
    }

    pub open spec fn spec_rte(self) -> Option<Option<int>> {
        efficiency(self.charged().parts as int, self.discharged().parts as int)
    }

    /// The efficiency over the window, if there is enough to tell.
    pub fn rte_percent(&self) -> (out: Option<Percent>)
        ensures
            match out {
                Some(percent) => self.spec_rte() == Some(percent@),
                None => self.spec_rte() is None,
            },
    {
        let charged: i128 = self.total_charge_wh().parts;
        if charged < 7_200_000 {
            return None;
        }
        let discharged: i128 = self.total_discharge_wh().parts;
        if discharged < 0 {
            return Some(Percent { micro: None });
        }
        let came: u128 = discharged as u128;
        let went: u128 = charged as u128;
        let tenths: u64 = ratio::scaled(came, 10, went);
        let ghost c = charged as int;
        let ghost d = came as int;
        proof {
            let q = d * 10 / c;
            assert(q < 7 <==> d * 10 < c * 7) by (nonlinear_arith)
                requires
                    q == d * 10 / c,
                    c > 0,
            ;
        }
        if tenths < 7 {
            let square: u64 = ratio::scaled(came, 10_000_000_000_000_000, went);
            proof {
                let q = d * 10_000_000_000_000_000 / c;
                assert(0 <= q <= 10_000_000_000_000_000) by (nonlinear_arith)
                    requires
                        q == d * 10_000_000_000_000_000 / c,
                        c > 0,
                        0 <= d,
                        d * 10 < c * 7,
                ;
            }
            Some(Percent { micro: Some(ratio::root(square)) })
        } else {
            Some(Percent { micro: Some(ratio::scaled(came, 100_000_000, went)) })
        }
    }

    /// How much can be recovered from the battery. Until the efficiency is
    /// known it counts as 85 %.
    pub fn usable_kwh(&self, soc: Soc, min_soc: Soc, pack_capacities: &[WattHours]) -> (out:
        KiloWattHours)
        ensures
            out@ == usable(
                WattHours::spec_sum(pack_capacities@).parts as int,
                soc@,
                min_soc@,
                self.spec_rte(),
            ),
    {
        let capacity: i128 = WattHours::sum(pack_capacities).parts;
        let full: u32 = soc.get();
        let floor: u32 = min_soc.get();
        if capacity <= 0 || full <= floor {
            return KiloWattHours::zero();
        }
        let percent: u64 = match self.rte_percent() {
            Some(Percent { micro: Some(micro) }) => micro,
            Some(Percent { micro: None }) => {
                return KiloWattHours { micro: None };
            },
            None => 85_000_000,
        };
        let share: u128 = (full - floor) as u128;
        assert(0 <= share * percent <= 100 * 0xffff_ffff_ffff_ffff) by (nonlinear_arith)
            requires
                0 <= share <= 100,
                0 <= percent <= 0xffff_ffff_ffff_ffff,
        ;
        let micro: u64 = ratio::scaled(
            capacity as u128,
            share * percent as u128,
            72_000_000_000_000,
        );
        KiloWattHours { micro: Some(micro as i128) }
    }

    /// What the state file is to hold.
    pub fn saved(&self) -> (out: PersistedState)
        ensures
            is_saved(*self, out),
    {
        let mut samples: Vec<PersistedSample> = Vec::new();
        for i in 0..self.samples.len()
            invariant
                samples@ == persisted(self.samples@).take(i as int),
        {
            let s = self.samples[i];
            samples.push(
                PersistedSample {
                    ts: s.unix,
                    charge_wh: s.charge_wh,
                    discharge_wh: s.discharge_wh,
                },
            );
            assert(samples@ =~= persisted(self.samples@).take(i + 1));
        }
        assert(samples@ =~= persisted(self.samples@));
        PersistedState {
            samples,
            last_charge_power: self.last_charge_power,
            last_discharge_power: self.last_discharge_power,
            last_sample_ts: self.last_sample_unix,
        }
    }

    /// A tracker that goes on from a state file. Samples outside the window are
    /// left out, and so is the last poll, unless it is younger than that.
    pub fn restored(state: &PersistedState, now: Timestamp, unix: Timestamp) -> (out: Self)
        ensures
            out.samples@ == restored_samples(
                state.samples@,
                now,
                unix,
                state.samples@.len() as int,
            ),
            out.last_charge_power == state.last_charge_power,
            out.last_discharge_power == state.last_discharge_power,
            match state.last_sample_ts {
                Some(last) if 0 <= unix.ms - last.ms < WINDOW_MS => {
                    &&& out.last_sample_time == Some(rewound(now, unix.ms - last.ms))
                    &&& out.last_sample_unix == Some(last)
                },
                _ => out.last_sample_time is None && out.last_sample_unix is None,
            },
    {
        let mut samples: Vec<Sample> = Vec::new();
        for i in 0..state.samples.len()
            invariant
                samples@ == restored_samples(state.samples@, now, unix, i as int),
        {
            let s = state.samples[i];
            let age: i128 = unix.as_millis() as i128 - s.ts.as_millis() as i128;
            if 0 <= age && age <= WINDOW_MS as i128 {
                samples.push(
                    Sample {
                        instant: Timestamp::from_millis(
                            saturate_i64(now.as_millis() as i128 - age),
                        ),
                        unix: s.ts,
                        charge_wh: s.charge_wh,
                        discharge_wh: s.discharge_wh,
                    },
                );
            }
        }
        let mut last_sample_time: Option<Timestamp> = None;
        let mut last_sample_unix: Option<Timestamp> = None;
        if let Some(last) = state.last_sample_ts {
            let age: i128 = unix.as_millis() as i128 - last.as_millis() as i128;
            if 0 <= age && age < WINDOW_MS as i128 {
                last_sample_time = Some(
                    Timestamp::from_millis(saturate_i64(now.as_millis() as i128 - age)),
                );
                last_sample_unix = Some(last);
            }
        }
        RteTracker {
            samples,
            last_sample_time,
            last_sample_unix,
            last_charge_power: state.last_charge_power,
            last_discharge_power: state.last_discharge_power,
        }
    }
}

pub open spec fn persisted(samples: Seq<Sample>) -> Seq<PersistedSample> {
    samples.map_values(
        |s: Sample|
            PersistedSample { ts: s.unix, charge_wh: s.charge_wh, discharge_wh: s.discharge_wh },
    )
}

/// What the state file holds of a tracker.
pub open spec fn is_saved(tracker: RteTracker, state: PersistedState) -> bool {
    &&& state.samples@ == persisted(tracker.samples@)
    &&& state.last_charge_power == tracker.last_charge_power
    &&& state.last_discharge_power == tracker.last_discharge_power
    &&& state.last_sample_ts == tracker.last_sample_unix
}

/// `age` milliseconds before `now`.
pub open spec fn rewound(now: Timestamp, age: int) -> Timestamp {
    Timestamp { ms: saturated_i64(now.ms - age) as i64 }
}

/// The first `n` samples of a state file, without those outside the window.
pub open spec fn restored_samples(
    samples: Seq<PersistedSample>,
    now: Timestamp,
    unix: Timestamp,
    n: int,
) -> Seq<Sample>
    decreases n,
{
    if n <= 0 {
        Seq::empty()
    } else {
        let front = restored_samples(samples, now, unix, n - 1);
        let s = samples[n - 1];
        let age = unix.ms - s.ts.ms;
        if 0 <= age <= WINDOW_MS {
            front.push(
                Sample {
                    instant: rewound(now, age),
                    unix: s.ts,
                    charge_wh: s.charge_wh,
                    discharge_wh: s.discharge_wh,
                },
            )
        } else {
            front
        }
    }
}

// --- laws ----------------------------------------------------------------------

/// No sample after another is older than it.
pub open spec fn in_time_order(samples: Seq<Sample>) -> bool {
    forall|i: int, j: int|
        0 <= i < j < samples.len() ==> (#[trigger] samples[i]).instant.ms <= (
        #[trigger] samples[j]).instant.ms
}

/// Where samples came in the order of time, dropping from the front leaves
/// exactly the window: nothing older stays, and nothing within it goes.
pub proof fn the_window_is_exact(samples: Seq<Sample>, cutoff: int)
    requires
        in_time_order(samples),
    ensures
        pruned(samples, cutoff) == samples.filter(|s: Sample| s.instant.ms >= cutoff),
        in_time_order(pruned(samples, cutoff)),
    decreases samples.len(),
{
    let young = |s: Sample| s.instant.ms >= cutoff;
    if samples.len() > 0 && samples[0].instant.ms < cutoff {
        let rest = samples.skip(1);
        assert forall|i: int, j: int| 0 <= i < j < rest.len() implies (
        #[trigger] rest[i]).instant.ms <= (#[trigger] rest[j]).instant.ms by {
            assert(samples[i + 1].instant.ms <= samples[j + 1].instant.ms);
        }
        the_window_is_exact(rest, cutoff);
        assert(samples =~= seq![samples[0]] + rest);
        one_first(samples[0], rest, young);
    } else {
        assert forall|i: int| 0 <= i < samples.len() implies young(#[trigger] samples[i]) by {
            if i > 0 {
                assert(samples[0].instant.ms <= samples[i].instant.ms);
            }
        }
        all_kept(samples, young);
    }
}

proof fn one_first(first: Sample, rest: Seq<Sample>, keep: spec_fn(Sample) -> bool)
    ensures
        (seq![first] + rest).filter(keep) == (if keep(first) {
            seq![first]
        } else {
            Seq::empty()
        }) + rest.filter(keep),
    decreases rest.len(),
{
    reveal(Seq::filter);
    let whole = seq![first] + rest;
    if rest.len() == 0 {
        assert(whole.drop_last() =~= Seq::<Sample>::empty());
        assert(whole.filter(keep) =~= (if keep(first) {
            seq![first]
        } else {
            Seq::empty()
        }) + rest.filter(keep));
    } else {
        one_first(first, rest.drop_last(), keep);
        assert(whole.drop_last() =~= seq![first] + rest.drop_last());
        assert(whole.last() == rest.last());
        assert(whole.filter(keep) =~= (if keep(first) {
            seq![first]
        } else {
            Seq::empty()
        }) + rest.filter(keep));
    }
}

proof fn all_kept(samples: Seq<Sample>, keep: spec_fn(Sample) -> bool)
    requires
        forall|i: int| 0 <= i < samples.len() ==> keep(#[trigger] samples[i]),
    ensures
        samples.filter(keep) == samples,
    decreases samples.len(),
{
    reveal(Seq::filter);
    if samples.len() > 0 {
        let front = samples.drop_last();
        assert forall|i: int| 0 <= i < front.len() implies keep(#[trigger] front[i]) by {
            assert(keep(samples[i]));
        }
        all_kept(front, keep);
        assert(keep(samples[samples.len() - 1]));
        assert(samples =~= front.push(samples.last()));
    }
}

/// A restart loses nothing of the window: energies that were saved and are
/// still young enough count after loading just as they did before.
pub proof fn a_restart_keeps_the_window(
    tracker: RteTracker,
    state: PersistedState,
    now: Timestamp,
    unix: Timestamp,
    n: int,
)
    requires
        is_saved(tracker, state),
        0 <= n <= tracker.samples@.len(),
        forall|i: int|
            0 <= i < tracker.samples@.len() ==> 0 <= unix.ms - (
            #[trigger] tracker.samples@[i]).unix.ms <= WINDOW_MS,
    ensures
        charges(restored_samples(state.samples@, now, unix, n)) == charges(
            tracker.samples@.take(n),
        ),
        discharges(restored_samples(state.samples@, now, unix, n)) == discharges(
            tracker.samples@.take(n),
        ),
    decreases n,
{
    if n > 0 {
        a_restart_keeps_the_window(tracker, state, now, unix, n - 1);
        let s = tracker.samples@[n - 1];
        assert(state.samples@[n - 1] == persisted(tracker.samples@)[n - 1]);
        assert(tracker.samples@.take(n) =~= tracker.samples@.take(n - 1).push(s));
        let front = restored_samples(state.samples@, now, unix, n - 1);
        let whole = restored_samples(state.samples@, now, unix, n);
        assert(0 <= unix.ms - tracker.samples@[n - 1].unix.ms <= WINDOW_MS);
        assert(whole.drop_last() =~= front);
        assert(charges(whole) =~= charges(front).push(s.charge_wh));
        assert(discharges(whole) =~= discharges(front).push(s.discharge_wh));
        assert(charges(tracker.samples@.take(n)) =~= charges(tracker.samples@.take(n - 1)).push(
            s.charge_wh,
        ));
        assert(discharges(tracker.samples@.take(n)) =~= discharges(
            tracker.samples@.take(n - 1),
        ).push(s.discharge_wh));
    } else {
        assert(charges(restored_samples(state.samples@, now, unix, n)) =~= charges(
            tracker.samples@.take(n),
        ));
        assert(discharges(restored_samples(state.samples@, now, unix, n)) =~= discharges(
            tracker.samples@.take(n),
        ));
    }
}

/// What can be recovered is the share of the packs' energy that lies between the two
/// states of charge, times the efficiency: the measured one, or 85 % where there is
/// none. In millionths of a kilowatt-hour, with the fraction dropped.
pub proof fn usable_energy_is_the_share_above_the_floor(
    capacity: int,
    soc: int,
    min_soc: int,
    rte: Option<Option<int>>,
    percent: int,
)
    requires
        0 < capacity,
        0 <= min_soc < soc <= 100,
        rte == Some(Some(percent)) || (rte is None && percent == 85_000_000),
        percent >= 0,
        capacity * ((soc - min_soc) * percent) < 0x1_0000_0000_0000_0000 * 72_000_000_000_000,
    ensures
        usable(capacity, soc, min_soc, rte) matches Some(micro) && micro * 72_000_000_000_000
            <= capacity * ((soc - min_soc) * percent) < (micro + 1) * 72_000_000_000_000,
{
    let energy = capacity * ((soc - min_soc) * percent);
    assert(energy >= 0) by (nonlinear_arith)
        requires
            energy == capacity * ((soc - min_soc) * percent),
            capacity > 0,
            soc > min_soc,
            percent >= 0,
    ;
}

/// A fuller battery never has less to give, a better efficiency neither, and at the
/// floor or below there is nothing.
pub proof fn usable_energy_grows_with_the_charge(
    capacity: int,
    soc: int,
    fuller: int,
    min_soc: int,
    rte: Option<Option<int>>,
    percent: int,
    better: int,
)
    requires
        soc <= fuller,
        0 <= percent <= better,
        rte == Some(Some(percent)) || (rte is None && percent == 85_000_000),
    ensures
        usable(capacity, soc, min_soc, rte) matches Some(now) && usable(
            capacity,
            fuller,
            min_soc,
            rte,
        ) matches Some(then) && now <= then,
        usable(capacity, soc, min_soc, rte) matches Some(now) && usable(
            capacity,
            soc,
            min_soc,
            Some(Some(better)),
        ) matches Some(then) && now <= then,
        soc <= min_soc ==> usable(capacity, soc, min_soc, rte) == Some(0int),
        capacity <= 0 ==> usable(capacity, soc, min_soc, rte) == Some(0int),
{
    if capacity > 0 && soc > min_soc {
        let low = soc - min_soc;
        let high = fuller - min_soc;
        assert(capacity * (low * percent) <= capacity * (high * percent) && capacity * (low
            * percent) <= capacity * (low * better) && 0 <= capacity * (low * percent))
            by (nonlinear_arith)
            requires
                capacity > 0,
                0 < low <= high,
                0 <= percent <= better,
        ;
    } else if capacity > 0 && fuller > min_soc {
        let high = fuller - min_soc;
        assert(0 <= capacity * (high * percent)) by (nonlinear_arith)
            requires
                capacity > 0,
                0 < high,
                0 <= percent,
        ;
    }
}

/// The efficiency is what came out of what went in. At 70 % and above it is their
/// ratio, in millionths of a percent; below, the root of it. There is none before a
/// whole watt-hour has gone in, and no number for less than nothing.
pub proof fn efficiency_is_what_came_out_of_what_went_in(charged: int, discharged: int)
    ensures
        efficiency(charged, discharged) is None <==> charged < 7_200_000,
        charged >= 7_200_000 && discharged < 0 ==> efficiency(charged, discharged) == Some(
            None::<int>,
        ),
        charged >= 7_200_000 && discharged >= 0 && 100 * discharged >= 70 * charged
            && 100_000_000 * discharged < 0x1_0000_0000_0000_0000 * charged ==> (efficiency(
            charged,
            discharged,
        ) matches Some(Some(p)) && p * charged <= 100_000_000 * discharged < (p + 1) * charged),
        charged >= 7_200_000 && discharged >= 0 && 100 * discharged < 70 * charged ==> (
        efficiency(charged, discharged) matches Some(Some(p)) && p >= 0 && (p * p) * charged
            <= 100_000_000 * 100_000_000 * discharged && 100_000_000 * 100_000_000 * discharged < (
        (p + 1) * (p + 1)) * charged),
{
    if charged >= 7_200_000 && discharged >= 0 {
        if 100 * discharged >= 70 * charged {
            let p = discharged * 100_000_000 / charged;
            assert(0 <= p && p * charged <= 100_000_000 * discharged < (p + 1) * charged)
                by (nonlinear_arith)
                requires
                    p == discharged * 100_000_000 / charged,
                    charged > 0,
                    discharged >= 0,
            ;
            if 100_000_000 * discharged < 0x1_0000_0000_0000_0000 * charged {
                assert(p < 0x1_0000_0000_0000_0000) by (nonlinear_arith)
                    requires
                        p * charged <= 100_000_000 * discharged,
                        100_000_000 * discharged < 0x1_0000_0000_0000_0000 * charged,
                        charged > 0,
                ;
            }
        } else {
            let square = discharged * 10_000_000_000_000_000 / charged;
            assert(0 <= square && square * charged <= 10_000_000_000_000_000 * discharged && (
            10_000_000_000_000_000 * discharged < (square + 1) * charged)) by (nonlinear_arith)
                requires
                    square == discharged * 10_000_000_000_000_000 / charged,
                    charged > 0,
                    discharged >= 0,
            ;
            ratio::a_root_exists(square);
            let p = root_of(square);
            assert((p * p) * charged <= square * charged && (square + 1) * charged <= ((p + 1) * (p
                + 1)) * charged) by (nonlinear_arith)
                requires
                    p * p <= square,
                    square + 1 <= (p + 1) * (p + 1),
                    charged > 0,
            ;
        }
    }
}

/// A poll adds what flowed since the last one, each direction by itself: a steady
/// power over the time between, and of two powers the mean of what each would have
/// come to.
pub proof fn a_poll_adds_what_flowed_since_the_last(
    tracker: RteTracker,
    last: Timestamp,
    now: Timestamp,
    unix: Timestamp,
    charge: Watts,
    discharge: Watts,
)
    requires
        tracker.last_sample_time == Some(last),
    ensures
        ({
            let before = tracker.samples@;
            let after = sampled(tracker, now, unix, charge, discharge);
            let added = after.last();
            &&& after.len() == before.len() + 1
            &&& after.drop_last() == before
            &&& added.instant == now
            &&& added.unix == unix
            &&& now.ms >= last.ms ==> {
                &&& tracker.last_charge_power == charge ==> added.charge_wh.parts == 2 * charge.w
                    * (now.ms - last.ms)
                &&& tracker.last_discharge_power == discharge ==> added.discharge_wh.parts == 2
                    * discharge.w * (now.ms - last.ms)
                &&& 2 * added.charge_wh.parts == 2 * tracker.last_charge_power.w * (now.ms
                    - last.ms) + 2 * charge.w * (now.ms - last.ms)
                &&& 2 * added.discharge_wh.parts == 2 * tracker.last_discharge_power.w * (now.ms
                    - last.ms) + 2 * discharge.w * (now.ms - last.ms)
            }
            &&& now.ms < last.ms ==> added.charge_wh.parts == 0 && added.discharge_wh.parts == 0
        }),
{
    let after = sampled(tracker, now, unix, charge, discharge);
    assert(after.drop_last() =~= tracker.samples@);
    steady_or_mean(tracker.last_charge_power.w as int, charge.w as int, span(last, now));
    steady_or_mean(tracker.last_discharge_power.w as int, discharge.w as int, span(last, now));
    if now.ms >= last.ms {
        assert(span(last, now) == now.ms - last.ms);
    } else {
        assert(span(last, now) == 0);
    }
}

/// What two powers come to over a time.
proof fn steady_or_mean(from: int, to: int, dt: int)
    requires
        i32::MIN <= from <= i32::MAX,
        i32::MIN <= to <= i32::MAX,
        0 <= dt <= 0x1_0000_0000_0000_0000,
    ensures
        ((from + to) * dt) as i128 == (from + to) * dt,
        2 * ((from + to) * dt) == 2 * from * dt + 2 * to * dt,
        from == to ==> (from + to) * dt == 2 * to * dt,
        dt == 0 ==> (from + to) * dt == 0,
{
    let sum = from + to;
    assert(2 * (sum * dt) == 2 * from * dt + 2 * to * dt) by (nonlinear_arith)
        requires
            sum == from + to,
    ;
    assert(from == to ==> sum * dt == 2 * to * dt) by (nonlinear_arith)
        requires
            sum == from + to,
    ;
    assert(dt == 0 ==> sum * dt == 0) by (nonlinear_arith);
    assert(-0x1_0000_0000_0000_0000 * 0x1_0000_0000 <= sum * dt <= 0x1_0000_0000_0000_0000
        * 0x1_0000_0000) by (nonlinear_arith)
        requires
            -0x1_0000_0000 <= sum <= 0x1_0000_0000,
            0 <= dt <= 0x1_0000_0000_0000_0000,
    ;
}

/// The first poll only starts the measurement.
pub proof fn a_first_poll_adds_nothing(
    tracker: RteTracker,
    now: Timestamp,
    unix: Timestamp,
    charge: Watts,
    discharge: Watts,
)
    requires
        tracker.last_sample_time is None,
    ensures
        sampled(tracker, now, unix, charge, discharge) == tracker.samples@,
{
}

/// One more sample adds its own energy to the total of its direction.
pub proof fn totals_are_sums(tracker: RteTracker, more: RteTracker, sample: Sample)
    requires
        more.samples@ == tracker.samples@.push(sample),
        i128::MIN <= tracker.charged().parts + sample.charge_wh.parts <= i128::MAX,
        i128::MIN <= tracker.discharged().parts + sample.discharge_wh.parts <= i128::MAX,
    ensures
        more.charged().parts == tracker.charged().parts + sample.charge_wh.parts,
        more.discharged().parts == tracker.discharged().parts + sample.discharge_wh.parts,
        tracker.samples@.len() == 0 ==> tracker.charged().parts == 0
            && tracker.discharged().parts == 0,
{
    assert(charges(more.samples@).drop_last() =~= charges(tracker.samples@));
    assert(discharges(more.samples@).drop_last() =~= discharges(tracker.samples@));
}

/// The window is the last day: a sample counts after a restart exactly if it is no
/// older than that and not from the future, at the same age as before.
pub proof fn a_restart_counts_the_last_day(
    samples: Seq<PersistedSample>,
    now: Timestamp,
    unix: Timestamp,
    n: int,
)
    requires
        0 < n <= samples.len(),
        now.ms - 24 * 60 * 60 * 1000 >= i64::MIN,
    ensures
        WINDOW_MS == 24 * 60 * 60 * 1000,
        ({
            let before = restored_samples(samples, now, unix, n - 1);
            let after = restored_samples(samples, now, unix, n);
            let stored = samples[n - 1];
            if unix.ms - 24 * 60 * 60 * 1000 <= stored.ts.ms <= unix.ms {
                &&& after.len() == before.len() + 1
                &&& after.drop_last() == before
                &&& after.last().unix == stored.ts
                &&& after.last().charge_wh == stored.charge_wh
                &&& after.last().discharge_wh == stored.discharge_wh
                &&& now.ms - after.last().instant.ms == unix.ms - stored.ts.ms
            } else {
                after == before
            }
        }),
{
    let before = restored_samples(samples, now, unix, n - 1);
    let after = restored_samples(samples, now, unix, n);
    if 0 <= unix.ms - samples[n - 1].ts.ms <= WINDOW_MS {
        assert(after.drop_last() =~= before);
    }
}

/// What is saved of a sample is when it was taken and what flowed each way.
pub proof fn every_sample_is_saved(tracker: RteTracker, state: PersistedState, i: int)
    requires
        is_saved(tracker, state),
    ensures
        state.samples@.len() == tracker.samples@.len(),
        0 <= i < tracker.samples@.len() ==> {
            &&& state.samples@[i].ts == tracker.samples@[i].unix
            &&& state.samples@[i].charge_wh == tracker.samples@[i].charge_wh
            &&& state.samples@[i].discharge_wh == tracker.samples@[i].discharge_wh
        },
        state.last_charge_power == tracker.last_charge_power,
        state.last_discharge_power == tracker.last_discharge_power,
        state.last_sample_ts == tracker.last_sample_unix,
{
}

} // verus!
