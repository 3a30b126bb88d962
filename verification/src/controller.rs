//! Reactive self-consumption control.
//!
//! Deliberately free of clock reads: every decision takes a [`Clock`] captured
//! at the edge, which is what makes the time-dependent branches testable and a
//! recorded event stream replayable.

use vstd::prelude::*;

use crate::battery::BatteryState;
use crate::clock::{Clock, Weekday};
use crate::config::{Config, SessionConfig};
use crate::models::{ControlDecision, ControlMode, CycleCounts, Decision};
use crate::text;
use crate::text::{decimal, signed, whole_of_milli};
use crate::units::{
    saturated_i64, within_cap, Duration, GridPower, Setpoint, Soc, SolarPower, Timestamp,
};
use crate::world::{House, Measurement, World};

verus! {

/// Everything that changes as decisions are made: mode history, idle timers and
/// daily counters. Apart from the tuning, so that a decision can be replayed.
#[derive(Debug, Clone, Copy, PartialEq, Eq, Structural)]
pub struct ControllerState {
    pub last_mode: ControlMode,
    pub last_active_mode: Option<ControlMode>,
    pub last_mode_change: Timestamp,
    pub last_decision: Timestamp,
    pub last_idle_start: Option<Timestamp>,
    pub daily_transitions: u32,
    pub daily_cooldown_suppressions: u32,
    pub last_cycle_reset_day: u32,
}

pub struct Controller {
    pub state: ControllerState,
    pub tuning: SessionConfig,
}

// --- model ---------------------------------------------------------------------

/// The history of a controller that has just started: free to decide and to
/// change mode at once, and idle since now.
pub open spec fn fresh_state(tuning: SessionConfig, clock: Clock, state: ControllerState) -> bool {
    &&& state.last_mode == ControlMode::Idle
    &&& state.last_active_mode is None
    &&& state.last_mode_change.ms == saturated_i64(
        clock.now.ms - tuning.min_mode_duration_secs * 1000,
    )
    &&& state.last_decision.ms == saturated_i64(
        clock.now.ms - tuning.min_decision_interval_secs * 1000,
    )
    &&& state.last_idle_start == Some(clock.now)
    &&& state.daily_transitions == 0
    &&& state.daily_cooldown_suppressions == 0
    &&& state.last_cycle_reset_day == clock.day_ordinal
}

/// The charge ceiling of a day: full on the weekday kept for cell balancing.
pub open spec fn effective_max_soc(tuning: SessionConfig, weekday: Weekday) -> int {
    if tuning.balance_weekday == Some(weekday) {
        100
    } else {
        tuning.max_soc@
    }
}

/// Solar production does not forbid discharging: the guard is off, or
/// production is below its threshold.
pub open spec fn solar_below_block(tuning: SessionConfig, solar: SolarPower) -> bool {
    tuning.solar_discharge_block_threshold.mw == 0 || solar.mw
        < tuning.solar_discharge_block_threshold.mw
}

/// Enough idle time lies between the last charge and a discharge.
pub open spec fn idle_long_enough(
    tuning: SessionConfig,
    state: ControllerState,
    now: Timestamp,
) -> bool {
    ||| state.last_mode == ControlMode::Discharge
    ||| state.last_active_mode != Some(ControlMode::Charge)
    ||| (state.last_idle_start matches Some(since) && now.ms - since.ms
        >= tuning.min_idle_before_discharge_secs * 1000)
}

/// The surplus calls for charging, and the battery can take it. Once charging,
/// any export keeps it going.
pub open spec fn wants_charge(
    tuning: SessionConfig,
    state: ControllerState,
    house: House,
    battery: BatteryState,
    clock: Clock,
) -> bool {
    &&& battery.soc@ < effective_max_soc(tuning, clock.weekday)
    &&& !battery.soc_limit_reached
    &&& house.underlying_grid() < if state.last_mode == ControlMode::Charge {
        0
    } else {
        tuning.charge_start_threshold.mw as int
    }
}

/// The demand calls for discharging, and nothing forbids it. Once discharging,
/// any import keeps it going.
pub open spec fn wants_discharge(
    tuning: SessionConfig,
    state: ControllerState,
    house: House,
    battery: BatteryState,
    clock: Clock,
) -> bool {
    &&& idle_long_enough(tuning, state, clock.now)
    &&& solar_below_block(tuning, house.solar)
    &&& battery.soc@ > tuning.min_soc@
    &&& house.underlying_grid() > if state.last_mode == ControlMode::Discharge {
        0
    } else {
        tuning.discharge_start_threshold.mw as int
    }
}

/// The mode that the grid, the battery and the time call for.
pub open spec fn target_mode(
    tuning: SessionConfig,
    state: ControllerState,
    house: House,
    battery: BatteryState,
    clock: Clock,
) -> ControlMode {
    if wants_charge(tuning, state, house, battery, clock) {
        ControlMode::Charge
    } else if wants_discharge(tuning, state, house, battery, clock) {
        ControlMode::Discharge
    } else {
        ControlMode::Idle
    }
}

/// The power for a mode: what the battery already does, corrected by what the
/// grid still sees less the margin, within the battery's cap.
pub open spec fn target_power(
    tuning: SessionConfig,
    mode: ControlMode,
    grid: GridPower,
    battery: BatteryState,
) -> int {
    match mode {
        ControlMode::Charge => within_cap(
            battery.current_power.spec_charging() + grid.spec_exporting()
                - tuning.charge_margin.watts,
            battery.max_charge_power,
        ),
        ControlMode::Discharge => within_cap(
            battery.current_power.spec_discharging() + grid.spec_importing()
                - tuning.discharge_margin.watts,
            battery.max_discharge_power,
        ),
        _ => 0,
    }
}

/// A direct swing between charging and discharging.
pub open spec fn opposing(from: ControlMode, to: ControlMode) -> bool {
    (from == ControlMode::Charge && to == ControlMode::Discharge) || (from
        == ControlMode::Discharge && to == ControlMode::Charge)
}

/// The history once the overrides have stood the battery down.
pub open spec fn stood_down(state: ControllerState, now: Timestamp) -> ControllerState {
    if state.last_mode != ControlMode::Idle {
        ControllerState {
            last_mode: ControlMode::Idle,
            last_mode_change: now,
            last_idle_start: Some(now),
            ..state
        }
    } else {
        state
    }
}

/// The history with the daily counters of the clock's day.
pub open spec fn day_of(state: ControllerState, clock: Clock) -> ControllerState {
    if clock.day_ordinal != state.last_cycle_reset_day {
        ControllerState {
            daily_transitions: 0,
            daily_cooldown_suppressions: 0,
            last_cycle_reset_day: clock.day_ordinal,
            ..state
        }
    } else {
        state
    }
}

/// A counter after one more, stopping at the largest.
pub open spec fn one_more(n: u32) -> u32 {
    if n == u32::MAX {
        n
    } else {
        (n + 1) as u32
    }
}

/// The day's transitions have used up the limit, where there is one.
pub open spec fn cycle_limited(tuning: SessionConfig, state: ControllerState) -> bool {
    tuning.cycle_warn_threshold > 0 && state.daily_transitions >= tuning.cycle_warn_threshold
}

/// A swing that comes too soon after the last mode change.
pub open spec fn cooling_down(
    tuning: SessionConfig,
    state: ControllerState,
    mode: ControlMode,
    now: Timestamp,
) -> bool {
    opposing(state.last_mode, mode) && now.ms - state.last_mode_change.ms
        < tuning.min_mode_duration_secs * 1000
}

/// The history once `mode` is commanded.
pub open spec fn entered(
    state: ControllerState,
    mode: ControlMode,
    now: Timestamp,
) -> ControllerState {
    if mode == state.last_mode {
        state
    } else {
        ControllerState {
            last_mode: mode,
            last_active_mode: if mode == ControlMode::Charge || mode == ControlMode::Discharge {
                Some(mode)
            } else {
                state.last_active_mode
            },
            last_mode_change: now,
            last_idle_start: if mode == ControlMode::Idle {
                Some(now)
            } else {
                None
            },
            daily_transitions: one_more(state.daily_transitions),
            ..state
        }
    }
}

/// The battery has been idle long enough to enter standby.
pub open spec fn idle_timed_out(
    tuning: SessionConfig,
    state: ControllerState,
    mode: ControlMode,
    now: Timestamp,
) -> bool {
    mode == ControlMode::Idle && (state.last_idle_start matches Some(since) && now.ms - since.ms
        >= tuning.idle_timeout_secs * 1000)
}

/// What is commanded for a wanted mode and power, and the history after it.
pub open spec fn guarded(
    tuning: SessionConfig,
    before: ControllerState,
    mode: ControlMode,
    power: Setpoint,
    grid: GridPower,
    clock: Clock,
) -> (ControllerState, Decision) {
    let state = day_of(before, clock);
    if cycle_limited(tuning, state) {
        (
            if state.last_mode == ControlMode::Standby {
                state
            } else {
                ControllerState {
                    last_mode: ControlMode::Standby,
                    last_mode_change: clock.now,
                    last_idle_start: None,
                    ..state
                }
            },
            Decision {
                mode: ControlMode::Standby,
                power: Setpoint::zero(),
                reason: cycle_limit_reason(tuning, state),
                grid,
            },
        )
    } else if cooling_down(tuning, state, mode, clock.now) {
        (
            ControllerState {
                daily_cooldown_suppressions: one_more(state.daily_cooldown_suppressions),
                last_idle_start: Some(clock.now),
                ..state
            },
            Decision {
                mode: ControlMode::Idle,
                power: Setpoint::zero(),
                reason: cooldown_reason(tuning, state, mode, clock.now),
                grid,
            },
        )
    } else {
        let after = entered(state, mode, clock.now);
        if idle_timed_out(tuning, after, mode, clock.now) {
            (
                after,
                Decision {
                    mode: ControlMode::Standby,
                    power: Setpoint::zero(),
                    reason: idle_timeout_reason(tuning),
                    grid,
                },
            )
        } else {
            let ramped = mode != state.last_mode && power.watts > 0;
            let commanded = if ramped {
                Setpoint { watts: (power.watts * 3 / 4) as u32 }
            } else {
                power
            };
            (
                after,
                Decision {
                    mode,
                    power: commanded,
                    reason: reason_for(mode, commanded, grid, clock.hour, ramped),
                    grid,
                },
            )
        }
    }
}

/// One decision: what is commanded, and the history after it.
pub open spec fn decided(
    tuning: SessionConfig,
    before: ControllerState,
    house: House,
    battery: BatteryState,
    clock: Clock,
) -> (ControllerState, Decision) {
    let state = ControllerState { last_decision: clock.now, ..before };
    let grid = house.grid.total;
    if battery.soc_calibrating {
        (
            stood_down(state, clock.now),
            Decision {
                mode: ControlMode::Idle,
                power: Setpoint::zero(),
                reason: "SOC calibration in progress, idling"@,
                grid,
            },
        )
    } else if battery.fault {
        (
            stood_down(state, clock.now),
            Decision {
                mode: ControlMode::Idle,
                power: Setpoint::zero(),
                reason: "Device reports a fault, idling"@,
                grid,
            },
        )
    } else {
        let mode = target_mode(tuning, state, house, battery, clock);
        let power = Setpoint { watts: target_power(tuning, mode, grid, battery) as u32 };
        guarded(tuning, state, mode, power, grid, clock)
    }
}

/// A decision is due: the minimum interval has passed since the last one.
pub open spec fn due(tuning: SessionConfig, state: ControllerState, now: Timestamp) -> bool {
    now.ms - state.last_decision.ms >= tuning.min_decision_interval_secs * 1000
}

/// What a controller does with a house, and its history after it. Nothing is
/// decided before its time, nor for a house without a battery.
pub open spec fn considered(
    tuning: SessionConfig,
    state: ControllerState,
    house: House,
    clock: Clock,
) -> (ControllerState, Option<Decision>) {
    match house.battery() {
        Some(battery) if due(tuning, state, clock.now) => {
            let (after, decision) = decided(tuning, state, house, battery, clock);
            (after, Some(decision))
        },
        _ => (state, None),
    }
}

// --- reasons -------------------------------------------------------------------

pub open spec fn cycle_limit_reason(tuning: SessionConfig, state: ControllerState) -> Seq<char> {
    "Cycle limit: "@ + decimal(state.daily_transitions as nat) + " transitions today (max "@
        + decimal(tuning.cycle_warn_threshold as nat) + "), standby until midnight"@
}

pub open spec fn cooldown_reason(
    tuning: SessionConfig,
    state: ControllerState,
    mode: ControlMode,
    now: Timestamp,
) -> Seq<char> {
    "Cooldown: suppressed "@ + mode.spec_name() + " (was "@ + state.last_mode.spec_name()
        + " for "@ + whole_of_milli(now.ms - state.last_mode_change.ms) + "s, min "@ + decimal(
        tuning.min_mode_duration_secs as nat,
    ) + "s)"@
}

pub open spec fn idle_timeout_reason(tuning: SessionConfig) -> Seq<char> {
    "Idle for "@ + decimal((tuning.idle_timeout_secs / 60) as nat)
        + "+ minutes, entering standby"@
}

pub open spec fn reason_for(
    mode: ControlMode,
    power: Setpoint,
    grid: GridPower,
    hour: u32,
    ramped: bool,
) -> Seq<char> {
    let ramp = if ramped {
        " (ramped 75%)"@
    } else {
        ""@
    };
    match mode {
        ControlMode::Charge => "Solar excess: exporting "@ + signed(grid.spec_exporting())
            + "W, charging at "@ + decimal(power.watts as nat) + "W"@ + ramp,
        ControlMode::Discharge => "Grid demand: importing "@ + whole_of_milli(grid.mw as int)
            + "W, discharging at "@ + decimal(power.watts as nat) + "W (hour "@ + decimal(
            hour as nat,
        ) + ")"@ + ramp,
        ControlMode::Idle => "No action needed (grid: "@ + whole_of_milli(grid.mw as int)
            + "W, hour: "@ + decimal(hour as nat) + ")"@,
        ControlMode::Standby => "Standby"@,
    }
}

fn build_reason(
    mode: ControlMode,
    power: Setpoint,
    grid_power: GridPower,
    hour: u32,
    ramped: bool,
) -> (out: String)
    ensures
        out@ == reason_for(mode, power, grid_power, hour, ramped),
{
    let ramp = if ramped {
        " (ramped 75%)"
    } else {
        ""
    };
    match mode {
        ControlMode::Charge => {
            let mut out = "Solar excess: exporting ".to_owned();
            text::push_signed(&mut out, grid_power.exporting().w as i128);
            out.append("W, charging at ");
            text::push_decimal(&mut out, power.watts as u128);
            out.append("W");
            out.append(ramp);
            out
        },
        ControlMode::Discharge => {
            let mut out = "Grid demand: importing ".to_owned();
            grid_power.push_to(&mut out);
            out.append("W, discharging at ");
            text::push_decimal(&mut out, power.watts as u128);
            out.append("W (hour ");
            text::push_decimal(&mut out, hour as u128);
            out.append(")");
            out.append(ramp);
            out
        },
        ControlMode::Idle => {
            let mut out = "No action needed (grid: ".to_owned();
            grid_power.push_to(&mut out);
            out.append("W, hour: ");
            text::push_decimal(&mut out, hour as u128);
            out.append(")");
            out
        },
        ControlMode::Standby => "Standby".to_owned(),
    }
}

/// A direct swing between charging and discharging.
fn is_opposing_switch(prev: ControlMode, next: ControlMode) -> (out: bool)
    ensures
        out == opposing(prev, next),
{
    (prev == ControlMode::Charge && next == ControlMode::Discharge) || (prev
        == ControlMode::Discharge && next == ControlMode::Charge)
}

// --- implementation ------------------------------------------------------------

impl Controller {
    /// A controller with the tuning of a session and no history.
    pub fn from_session(session: &SessionConfig, clock: &Clock) -> (out: Self)
        ensures
            out.tuning == *session,
            fresh_state(*session, *clock, out.state),
    {
        Controller {
            state: ControllerState {
                last_mode: ControlMode::Idle,
                last_active_mode: None,
                last_mode_change: clock.now.minus(
                    Duration::from_secs(session.min_mode_duration_secs),
                ),
                last_decision: clock.now.minus(
                    Duration::from_secs(session.min_decision_interval_secs),
                ),
                last_idle_start: Some(clock.now),
                daily_transitions: 0,
                daily_cooldown_suppressions: 0,
                last_cycle_reset_day: clock.day_ordinal,
            },
            tuning: *session,
        }
    }

    /// A controller with the tuning of a configuration and no history.
    pub fn from_config(config: &Config, clock: &Clock) -> (out: Self)
        ensures
            out.tuning == config.spec_session(),
            fresh_state(config.spec_session(), *clock, out.state),
    {
        Self::from_session(&config.session(), clock)
    }

    pub fn cycle_counts(&self) -> (out: CycleCounts)
        ensures
            out.daily_transitions == self.state.daily_transitions,
            out.daily_cooldown_suppressions == self.state.daily_cooldown_suppressions,
    {
        CycleCounts {
            daily_transitions: self.state.daily_transitions,
            daily_cooldown_suppressions: self.state.daily_cooldown_suppressions,
        }
    }

    /// A snapshot of the history.
    pub fn state(&self) -> (out: ControllerState)
        ensures
            out == self.state,
    {
        self.state
    }

    /// Puts a snapshot back. The tuning stays what this controller was built
    /// with.
    pub fn restore(&mut self, state: ControllerState)
        ensures
            final(self).state == state,
            final(self).tuning == old(self).tuning,
    {
        self.state = state;
    }

    /// A decision, unless the minimum interval has not passed or there is no
    /// battery to control.
    pub fn decide(&mut self, world: &World, clock: &Clock) -> (out: Option<ControlDecision>)
        ensures
            final(self).tuning == old(self).tuning,
            (final(self).state, match out {
                Some(decision) => Some(decision@),
                None => None,
            }) == considered(old(self).tuning, old(self).state, world@, *clock),
    {
        let interval = Duration::from_secs(self.tuning.min_decision_interval_secs);
        if clock.now.since(self.state.last_decision).shorter_than(interval) {
            return None;
        }
        match world.battery() {
            Some(battery) => Some(self.decide_at(world, &battery, clock)),
            None => None,
        }
    }

    /// The decision for one battery.
    pub fn decide_at(
        &mut self,
        world: &World,
        battery: &BatteryState,
        clock: &Clock,
    ) -> (out: ControlDecision)
        ensures
            final(self).tuning == old(self).tuning,
            (final(self).state, out@) == decided(
                old(self).tuning,
                old(self).state,
                world@,
                *battery,
                *clock,
            ),
    {
        self.state.last_decision = clock.now;
        let grid_power = world.grid().total;

        // The reported SOC is unreliable during a calibration: stay idle.
        if battery.soc_calibrating {
            self.force_idle(clock);
            return ControlDecision {
                mode: ControlMode::Idle,
                power_watts: Setpoint::zero(),
                reason: "SOC calibration in progress, idling".to_owned(),
                grid_power,
            };
        }
        // Idle never writes the power caps, so a fault that zeroed them is left
        // at zero rather than overwritten by a forced charge.
        if battery.fault {
            self.force_idle(clock);
            return ControlDecision {
                mode: ControlMode::Idle,
                power_watts: Setpoint::zero(),
                reason: "Device reports a fault, idling".to_owned(),
                grid_power,
            };
        }
        let mode = self.target_mode(world, battery, clock);
        let power = self.target_power(mode, grid_power, battery);
        self.apply_guards(mode, power, grid_power, clock)
    }

    /// Drops to idle without going through the guards.
    fn force_idle(&mut self, clock: &Clock)
        ensures
            final(self).tuning == old(self).tuning,
            final(self).state == stood_down(old(self).state, clock.now),
    {
        if self.state.last_mode != ControlMode::Idle {
            self.state.last_mode = ControlMode::Idle;
            self.state.last_mode_change = clock.now;
            self.state.last_idle_start = Some(clock.now);
        }
    }

    /// The desired mode. Starting to charge or discharge needs the full
    /// threshold; once active, only crossing back past zero stops it, because
    /// the meter reading includes the battery's own effect.
    fn target_mode(&self, world: &World, battery: &BatteryState, clock: &Clock) -> (out: ControlMode)
        ensures
            out == target_mode(self.tuning, self.state, world@, *battery, *clock),
    {
        let underlying_grid = world.underlying_grid();

        let charge_threshold = if self.state.last_mode == ControlMode::Charge {
            GridPower::zero()
        } else {
            self.tuning.charge_start_threshold
        };
        let max_soc = self.effective_max_soc(clock.weekday);
        if battery.soc.get() < max_soc.get() && !battery.soc_limit_reached && underlying_grid.mw
            < charge_threshold.mw {
            return ControlMode::Charge;
        }
        let discharge_threshold = if self.state.last_mode == ControlMode::Discharge {
            GridPower::zero()
        } else {
            self.tuning.discharge_start_threshold
        };
        // Only after a charge: this keeps variable solar from swinging the
        // battery through idle, while a brief dip in demand costs nothing.
        let needs_idle_guard = self.state.last_active_mode == Some(ControlMode::Charge);
        let idle_long_enough = if self.state.last_mode == ControlMode::Discharge {
            true
        } else if needs_idle_guard {
            match self.state.last_idle_start {
                Some(since) => !clock.now.since(since).shorter_than(
                    Duration::from_secs(self.tuning.min_idle_before_discharge_secs),
                ),
                None => false,
            }
        } else {
            true
        };
        if idle_long_enough && self.solar_below_block(world.solar()) && battery.soc.get()
            > self.tuning.min_soc.get() && underlying_grid.mw > discharge_threshold.mw {
            return ControlMode::Discharge;
        }
        ControlMode::Idle
    }

    /// The charge ceiling of a day.
    fn effective_max_soc(&self, weekday: Weekday) -> (out: Soc)
        ensures
            out@ == effective_max_soc(self.tuning, weekday),
    {
        match self.tuning.balance_weekday {
            Some(day) if day == weekday => Soc::full(),
            _ => self.tuning.max_soc,
        }
    }

    fn solar_below_block(&self, solar_power: SolarPower) -> (out: bool)
        ensures
            out == solar_below_block(self.tuning, solar_power),
    {
        self.tuning.solar_discharge_block_threshold.mw == 0 || solar_power.mw
            < self.tuning.solar_discharge_block_threshold.mw
    }

    /// The target power for a mode.
    fn target_power(
        &self,
        mode: ControlMode,
        grid_power: GridPower,
        battery: &BatteryState,
    ) -> (out: Setpoint)
        ensures
            out.watts == target_power(self.tuning, mode, grid_power, *battery),
    {
        match mode {
            ControlMode::Charge => {
                let adjustment: i64 = grid_power.exporting().w as i64
                    - self.tuning.charge_margin.watts as i64;
                let current: i64 = battery.current_power.charging().w as i64;
                Setpoint::clamped(current + adjustment, battery.max_charge_power)
            },
            ControlMode::Discharge => {
                let adjustment: i64 = grid_power.importing().w as i64
                    - self.tuning.discharge_margin.watts as i64;
                let current: i64 = battery.current_power.discharging().w as i64;
                Setpoint::clamped(current + adjustment, battery.max_discharge_power)
            },
            ControlMode::Idle | ControlMode::Standby => Setpoint::zero(),
        }
    }

    /// Applies cycle limit, cooldown, ramp and standby timeout.
    fn apply_guards(
        &mut self,
        mode: ControlMode,
        power: Setpoint,
        grid_power: GridPower,
        clock: &Clock,
    ) -> (out: ControlDecision)
        ensures
            final(self).tuning == old(self).tuning,
            (final(self).state, out@) == guarded(
                old(self).tuning,
                old(self).state,
                mode,
                power,
                grid_power,
                *clock,
            ),
    {
        // Daily counters start over at midnight.
        if clock.day_ordinal != self.state.last_cycle_reset_day {
            self.state.daily_transitions = 0;
            self.state.daily_cooldown_suppressions = 0;
            self.state.last_cycle_reset_day = clock.day_ordinal;
        }
        if self.tuning.cycle_warn_threshold > 0 && self.state.daily_transitions
            >= self.tuning.cycle_warn_threshold {
            let mut reason = "Cycle limit: ".to_owned();
            text::push_decimal(&mut reason, self.state.daily_transitions as u128);
            reason.append(" transitions today (max ");
            text::push_decimal(&mut reason, self.tuning.cycle_warn_threshold as u128);
            reason.append("), standby until midnight");
            if self.state.last_mode != ControlMode::Standby {
                self.state.last_mode = ControlMode::Standby;
                self.state.last_mode_change = clock.now;
                self.state.last_idle_start = None;
            }
            return ControlDecision {
                mode: ControlMode::Standby,
                power_watts: Setpoint::zero(),
                reason,
                grid_power,
            };
        }
        // Swings between charging and discharging that come too fast.
        let in_mode = clock.now.since(self.state.last_mode_change);
        if is_opposing_switch(self.state.last_mode, mode) && in_mode.shorter_than(
            Duration::from_secs(self.tuning.min_mode_duration_secs),
        ) {
            let mut reason = "Cooldown: suppressed ".to_owned();
            reason.append(mode.as_str());
            reason.append(" (was ");
            reason.append(self.state.last_mode.as_str());
            reason.append(" for ");
            text::push_whole_of_milli(&mut reason, in_mode.ms);
            reason.append("s, min ");
            text::push_decimal(&mut reason, self.tuning.min_mode_duration_secs as u128);
            reason.append("s)");
            self.state.daily_cooldown_suppressions =
                self.state.daily_cooldown_suppressions.saturating_add(1);
            if self.state.last_mode != ControlMode::Idle {
                self.state.last_idle_start = Some(clock.now);
            }
            return ControlDecision {
                mode: ControlMode::Idle,
                power_watts: Setpoint::zero(),
                reason,
                grid_power,
            };
        }
        // Mode changes start at three quarters of the power.
        let mut ramped = false;
        let mut final_power = power;
        if mode != self.state.last_mode {
            self.state.daily_transitions = self.state.daily_transitions.saturating_add(1);
            if mode == ControlMode::Charge || mode == ControlMode::Discharge {
                self.state.last_active_mode = Some(mode);
            }
            self.state.last_mode = mode;
            self.state.last_mode_change = clock.now;
            self.state.last_idle_start = if mode == ControlMode::Idle {
                Some(clock.now)
            } else {
                None
            };
            if power.watts > 0 {
                final_power = power.ramped();
                ramped = true;
            }
        }
        if mode == ControlMode::Idle {
            if let Some(idle_start) = self.state.last_idle_start {
                if !clock.now.since(idle_start).shorter_than(
                    Duration::from_secs(self.tuning.idle_timeout_secs),
                ) {
                    let mut reason = "Idle for ".to_owned();
                    text::push_decimal(&mut reason, (self.tuning.idle_timeout_secs / 60) as u128);
                    reason.append("+ minutes, entering standby");
                    return ControlDecision {
                        mode: ControlMode::Standby,
                        power_watts: Setpoint::zero(),
                        reason,
                        grid_power,
                    };
                }
            }
        }
        let reason = build_reason(mode, final_power, grid_power, clock.hour, ramped);
        ControlDecision { mode, power_watts: final_power, reason, grid_power }
    }
}

// --- laws ----------------------------------------------------------------------

/// What is commanded stays within the battery's cap for that direction, and
/// standing down commands no power.
pub proof fn power_stays_within_the_cap(
    tuning: SessionConfig,
    state: ControllerState,
    house: House,
    battery: BatteryState,
    clock: Clock,
)
    ensures
        ({
            let decision = decided(tuning, state, house, battery, clock).1;
            &&& decision.mode == ControlMode::Charge ==> decision.power.watts
                <= battery.max_charge_power.watts
            &&& decision.mode == ControlMode::Discharge ==> decision.power.watts
                <= battery.max_discharge_power.watts
            &&& decision.mode == ControlMode::Idle || decision.mode == ControlMode::Standby
                ==> decision.power.watts == 0
        }),
{
}

/// A battery that calibrates or reports a fault is left idle, whatever else
/// holds.
pub proof fn an_unfit_battery_idles(
    tuning: SessionConfig,
    state: ControllerState,
    house: House,
    battery: BatteryState,
    clock: Clock,
)
    requires
        battery.soc_calibrating || battery.fault,
    ensures
        decided(tuning, state, house, battery, clock).1.mode == ControlMode::Idle,
        decided(tuning, state, house, battery, clock).1.power.watts == 0,
{
}

/// Charging is commanded only to a battery below the day's ceiling that
/// accepts charge, against a surplus.
pub proof fn charging_has_its_conditions(
    tuning: SessionConfig,
    state: ControllerState,
    house: House,
    battery: BatteryState,
    clock: Clock,
)
    requires
        decided(tuning, state, house, battery, clock).1.mode == ControlMode::Charge,
    ensures
        battery.soc@ < effective_max_soc(tuning, clock.weekday),
        !battery.soc_limit_reached,
        house.underlying_grid() < 0 || house.underlying_grid() < tuning.charge_start_threshold.mw,
{
}

/// Discharging is commanded only from a battery above the floor, against a
/// demand, while solar production does not forbid it.
pub proof fn discharging_has_its_conditions(
    tuning: SessionConfig,
    state: ControllerState,
    house: House,
    battery: BatteryState,
    clock: Clock,
)
    requires
        decided(tuning, state, house, battery, clock).1.mode == ControlMode::Discharge,
    ensures
        battery.soc@ > tuning.min_soc@,
        solar_below_block(tuning, house.solar),
        house.underlying_grid() > 0 || house.underlying_grid()
            > tuning.discharge_start_threshold.mw,
{
}

/// Within the minimum mode duration, a charging battery is not told to
/// discharge, nor the other way round.
pub proof fn no_swing_within_the_cooldown(
    tuning: SessionConfig,
    state: ControllerState,
    house: House,
    battery: BatteryState,
    clock: Clock,
)
    requires
        clock.now.ms - state.last_mode_change.ms < tuning.min_mode_duration_secs * 1000,
    ensures
        !opposing(state.last_mode, decided(tuning, state, house, battery, clock).1.mode),
{
}

/// Once the day's transitions have used up the limit, a battery that is fit is
/// held in standby until the day is over.
pub proof fn the_cycle_limit_holds_standby(
    tuning: SessionConfig,
    state: ControllerState,
    house: House,
    battery: BatteryState,
    clock: Clock,
)
    requires
        !battery.soc_calibrating,
        !battery.fault,
        clock.day_ordinal == state.last_cycle_reset_day,
        cycle_limited(tuning, state),
    ensures
        decided(tuning, state, house, battery, clock).1.mode == ControlMode::Standby,
        cycle_limited(tuning, decided(tuning, state, house, battery, clock).0),
{
}

/// On a new day the counters start over: whatever they were, the first
/// decision of the day for a fit battery leaves at most one of each.
pub proof fn counters_start_over_at_midnight(
    tuning: SessionConfig,
    state: ControllerState,
    house: House,
    battery: BatteryState,
    clock: Clock,
)
    requires
        !battery.soc_calibrating,
        !battery.fault,
        clock.day_ordinal != state.last_cycle_reset_day,
    ensures
        decided(tuning, state, house, battery, clock).0.daily_transitions <= 1,
        decided(tuning, state, house, battery, clock).0.daily_cooldown_suppressions <= 1,
        decided(tuning, state, house, battery, clock).0.last_cycle_reset_day
            == clock.day_ordinal,
{
}

/// After a decision there is none until the minimum interval has passed.
pub proof fn decisions_keep_their_distance(
    tuning: SessionConfig,
    state: ControllerState,
    house: House,
    clock: Clock,
    later_house: House,
    later: Clock,
)
    requires
        considered(tuning, state, house, clock).1 is Some,
        later.now.ms - clock.now.ms < tuning.min_decision_interval_secs * 1000,
    ensures
        considered(
            tuning,
            considered(tuning, state, house, clock).0,
            later_house,
            later,
        ).1 is None,
{
}

/// Once charging, any export keeps a battery charging that can still take it,
/// however small; once discharging, any import keeps it wanted.
pub proof fn activity_outlasts_its_start_threshold(
    tuning: SessionConfig,
    state: ControllerState,
    house: House,
    battery: BatteryState,
    clock: Clock,
)
    ensures
        state.last_mode == ControlMode::Charge && battery.soc@ < effective_max_soc(
            tuning,
            clock.weekday,
        ) && !battery.soc_limit_reached && house.underlying_grid() < 0 ==> target_mode(
            tuning,
            state,
            house,
            battery,
            clock,
        ) == ControlMode::Charge,
        state.last_mode == ControlMode::Discharge && battery.soc@ > tuning.min_soc@
            && solar_below_block(tuning, house.solar) && house.underlying_grid() > 0
            ==> target_mode(tuning, state, house, battery, clock) != ControlMode::Idle,
{
}

/// The idle timer runs whenever the last mode was idle: what a fresh controller
/// starts with, every decision keeps.
pub proof fn idling_is_always_timed(
    tuning: SessionConfig,
    state: ControllerState,
    house: House,
    clock: Clock,
)
    requires
        state.last_mode == ControlMode::Idle ==> state.last_idle_start is Some,
    ensures
        ({
            let after = considered(tuning, state, house, clock).0;
            after.last_mode == ControlMode::Idle ==> after.last_idle_start is Some
        }),
{
}

/// A fresh controller is free to decide, unless the clock stands at the very
/// beginning of time.
pub proof fn a_fresh_controller_is_due(
    tuning: SessionConfig,
    state: ControllerState,
    clock: Clock,
)
    requires
        fresh_state(tuning, clock, state),
        clock.now.ms - tuning.min_decision_interval_secs * 1000 >= i64::MIN,
    ensures
        due(tuning, state, clock.now),
{
}

/// Correcting a discharge leaves the margin on the meter. Where the battery
/// delivers `c` and the meter reads `w` whole watts, commanding `p` turns the
/// reading into `w - (p - c)`: no more than the margin unless the cap binds, and no
/// less unless nothing is commanded at all.
pub proof fn a_discharge_leaves_its_margin_on_the_meter(
    tuning: SessionConfig,
    grid: GridPower,
    battery: BatteryState,
    w: int,
    fraction: int,
)
    requires
        grid.mw == w * 1000 + fraction,
        -1000 < fraction < 1000,
        w > 0 ==> fraction >= 0,
        w < 0 ==> fraction <= 0,
        i32::MIN <= w <= i32::MAX,
    ensures
        ({
            let p = target_power(tuning, ControlMode::Discharge, grid, battery);
            let c = if battery.current_power.w > 0 {
                battery.current_power.w as int
            } else {
                0
            };
            let predicted = w - (p - c);
            &&& 0 <= p <= battery.max_discharge_power.watts
            &&& p < battery.max_discharge_power.watts ==> predicted
                <= tuning.discharge_margin.watts
            &&& p > 0 ==> predicted >= tuning.discharge_margin.watts
        }),
{
}

/// Correcting a charge leaves the margin as export: where the battery takes `c`
/// and the meter reads `w` whole watts, commanding `p` turns the reading into
/// `w + (p - c)`.
pub proof fn a_charge_leaves_its_margin_on_the_meter(
    tuning: SessionConfig,
    grid: GridPower,
    battery: BatteryState,
    w: int,
    fraction: int,
)
    requires
        grid.mw == w * 1000 + fraction,
        -1000 < fraction < 1000,
        w > 0 ==> fraction >= 0,
        w < 0 ==> fraction <= 0,
        i32::MIN < w <= i32::MAX,
        battery.current_power.w > i32::MIN,
    ensures
        ({
            let p = target_power(tuning, ControlMode::Charge, grid, battery);
            let c = if battery.current_power.w < 0 {
                -battery.current_power.w
            } else {
                0
            };
            let predicted = w + (p - c);
            &&& 0 <= p <= battery.max_charge_power.watts
            &&& p < battery.max_charge_power.watts ==> predicted >= -tuning.charge_margin.watts
            &&& p > 0 ==> predicted <= -tuning.charge_margin.watts
        }),
{
}

/// A mode that goes on is commanded its whole correction, and one that begins
/// three quarters of it, in whole watts.
pub proof fn a_change_of_mode_is_ramped(
    tuning: SessionConfig,
    state: ControllerState,
    house: House,
    battery: BatteryState,
    clock: Clock,
)
    ensures
        ({
            let decision = decided(tuning, state, house, battery, clock).1;
            let p = decision.power.watts as int;
            let whole = target_power(tuning, decision.mode, house.grid.total, battery);
            decision.mode == ControlMode::Charge || decision.mode == ControlMode::Discharge ==> {
                &&& state.last_mode == decision.mode ==> p == whole
                &&& state.last_mode != decision.mode ==> 4 * p <= 3 * whole < 4 * p + 4
            }
        }),
{
}

/// A battery is charged exactly against a surplus beyond the start threshold, or
/// any at all once it charges, and only as far as its ceiling: on the weekday of
/// the balancing charge that is the whole of it.
pub proof fn charging_is_wanted_exactly_against_a_surplus(
    tuning: SessionConfig,
    state: ControllerState,
    house: House,
    battery: BatteryState,
    clock: Clock,
    without: int,
)
    requires
        house.devices.len() > 0,
        house.devices[0].1 matches Measurement::Battery(measured) && without
            == house.grid.total.mw + 1000 * measured.current_power.w,
        i64::MIN <= without <= i64::MAX,
    ensures
        target_mode(tuning, state, house, battery, clock) == ControlMode::Charge <==> {
            &&& !battery.soc_limit_reached
            &&& if tuning.balance_weekday == Some(clock.weekday) {
                battery.soc@ < 100
            } else {
                battery.soc@ < tuning.max_soc@
            }
            &&& if state.last_mode == ControlMode::Charge {
                without < 0
            } else {
                without < tuning.charge_start_threshold.mw
            }
        },
{
}

/// A battery is discharged exactly against a demand beyond the start threshold, or
/// any at all once it discharges, above its floor, while the sun does not make
/// enough, and after a rest if it was charged last.
pub proof fn discharging_is_wanted_exactly_against_a_demand(
    tuning: SessionConfig,
    state: ControllerState,
    house: House,
    battery: BatteryState,
    clock: Clock,
    without: int,
)
    requires
        house.devices.len() > 0,
        house.devices[0].1 matches Measurement::Battery(measured) && without
            == house.grid.total.mw + 1000 * measured.current_power.w,
        i64::MIN <= without <= i64::MAX,
        target_mode(tuning, state, house, battery, clock) != ControlMode::Charge,
    ensures
        target_mode(tuning, state, house, battery, clock) == ControlMode::Discharge <==> {
            &&& battery.soc@ > tuning.min_soc@
            &&& tuning.solar_discharge_block_threshold.mw != 0 ==> house.solar.mw
                < tuning.solar_discharge_block_threshold.mw
            &&& if state.last_mode == ControlMode::Discharge {
                without > 0
            } else {
                &&& without > tuning.discharge_start_threshold.mw
                &&& state.last_active_mode == Some(ControlMode::Charge) ==> {
                    &&& state.last_idle_start is Some
                    &&& clock.now.ms >= state.last_idle_start->0.ms + 1000
                        * tuning.min_idle_before_discharge_secs
                }
            }
        },
        target_mode(tuning, state, house, battery, clock) != ControlMode::Standby,
{
}

/// More export never keeps a battery from charging, and more import never keeps it
/// from discharging.
pub proof fn more_of_the_same_changes_no_mode(
    tuning: SessionConfig,
    state: ControllerState,
    house: House,
    battery: BatteryState,
    clock: Clock,
    more: House,
)
    requires
        more.solar == house.solar,
        more.devices == house.devices,
    ensures
        more.grid.total.mw <= house.grid.total.mw && target_mode(
            tuning,
            state,
            house,
            battery,
            clock,
        ) == ControlMode::Charge ==> target_mode(tuning, state, more, battery, clock)
            == ControlMode::Charge,
        more.grid.total.mw >= house.grid.total.mw && target_mode(
            tuning,
            state,
            house,
            battery,
            clock,
        ) == ControlMode::Discharge ==> target_mode(tuning, state, more, battery, clock)
            == ControlMode::Discharge,
{
}

/// Where no guard steps in, the battery is told what the meter calls for: the
/// limit of the day is not used up, no swing comes too soon, and idling has not
/// lasted long enough for standby.
pub proof fn an_unguarded_decision_is_what_the_meter_calls_for(
    tuning: SessionConfig,
    state: ControllerState,
    house: House,
    battery: BatteryState,
    clock: Clock,
)
    requires
        !battery.soc_calibrating,
        !battery.fault,
        tuning.cycle_warn_threshold == 0 || clock.day_ordinal != state.last_cycle_reset_day
            || state.daily_transitions < tuning.cycle_warn_threshold,
        clock.now.ms >= state.last_mode_change.ms + 1000 * tuning.min_mode_duration_secs,
    ensures
        ({
            let wanted = target_mode(tuning, state, house, battery, clock);
            let (after, decision) = decided(tuning, state, house, battery, clock);
            &&& wanted != ControlMode::Idle ==> decision.mode == wanted
            &&& wanted == ControlMode::Idle ==> if state.last_mode == ControlMode::Idle
                && state.last_idle_start is Some {
                decision.mode == (if clock.now.ms - state.last_idle_start->0.ms >= 1000
                    * tuning.idle_timeout_secs {
                    ControlMode::Standby
                } else {
                    ControlMode::Idle
                })
            } else if state.last_mode != ControlMode::Idle && tuning.idle_timeout_secs > 0 {
                decision.mode == ControlMode::Idle
            } else {
                true
            }
            &&& after.last_mode == wanted
            &&& decision.grid == house.grid.total
        }),
{
}

/// A swing between charging and discharging that comes too soon is suppressed:
/// the battery idles, the suppression is counted, the wait for a discharge starts
/// over, and the mode that was left is not.
pub proof fn a_swing_too_soon_is_suppressed(
    tuning: SessionConfig,
    state: ControllerState,
    house: House,
    battery: BatteryState,
    clock: Clock,
)
    requires
        !battery.soc_calibrating,
        !battery.fault,
        clock.day_ordinal == state.last_cycle_reset_day,
        tuning.cycle_warn_threshold == 0 || state.daily_transitions < tuning.cycle_warn_threshold,
        clock.now.ms < state.last_mode_change.ms + 1000 * tuning.min_mode_duration_secs,
        ({
            let wanted = target_mode(tuning, state, house, battery, clock);
            ||| state.last_mode == ControlMode::Charge && wanted == ControlMode::Discharge
            ||| state.last_mode == ControlMode::Discharge && wanted == ControlMode::Charge
        }),
        state.daily_cooldown_suppressions < u32::MAX,
    ensures
        ({
            let (after, decision) = decided(tuning, state, house, battery, clock);
            &&& decision.mode == ControlMode::Idle
            &&& decision.power.watts == 0
            &&& after.daily_cooldown_suppressions == state.daily_cooldown_suppressions + 1
            &&& after.daily_transitions == state.daily_transitions
            &&& after.last_idle_start == Some(clock.now)
            &&& after.last_mode == state.last_mode
            &&& after.last_mode_change == state.last_mode_change
            &&& after.last_active_mode == state.last_active_mode
            &&& after.last_decision == clock.now
        }),
{
}

/// Short of a swing between charging and discharging, nothing has to wait for the
/// minimum mode duration: no suppression is counted, and the wanted mode is
/// entered.
pub proof fn only_a_swing_is_suppressed(
    tuning: SessionConfig,
    state: ControllerState,
    house: House,
    battery: BatteryState,
    clock: Clock,
)
    requires
        !battery.soc_calibrating,
        !battery.fault,
        clock.day_ordinal == state.last_cycle_reset_day,
        tuning.cycle_warn_threshold == 0 || state.daily_transitions < tuning.cycle_warn_threshold,
        ({
            let wanted = target_mode(tuning, state, house, battery, clock);
            ||| wanted == ControlMode::Idle
            ||| state.last_mode == wanted
            ||| state.last_mode == ControlMode::Idle
            ||| state.last_mode == ControlMode::Standby
        }),
    ensures
        ({
            let (after, decision) = decided(tuning, state, house, battery, clock);
            &&& after.daily_cooldown_suppressions == state.daily_cooldown_suppressions
            &&& after.last_mode == target_mode(tuning, state, house, battery, clock)
        }),
{
}

/// A decision of a fit battery that is neither limited nor suppressed counts one
/// transition exactly if the mode changes, and then the change is now, the idle
/// timer runs exactly while idling, and the last activity is remembered.
pub proof fn a_change_of_mode_is_remembered(
    tuning: SessionConfig,
    state: ControllerState,
    house: House,
    battery: BatteryState,
    clock: Clock,
)
    requires
        !battery.soc_calibrating,
        !battery.fault,
        clock.day_ordinal == state.last_cycle_reset_day,
        tuning.cycle_warn_threshold == 0 || state.daily_transitions < tuning.cycle_warn_threshold,
        clock.now.ms >= state.last_mode_change.ms + 1000 * tuning.min_mode_duration_secs,
        state.daily_transitions < u32::MAX,
    ensures
        ({
            let after = decided(tuning, state, house, battery, clock).0;
            &&& after.last_mode != state.last_mode ==> {
                &&& after.daily_transitions == state.daily_transitions + 1
                &&& after.last_mode_change == clock.now
                &&& after.last_mode == ControlMode::Idle ==> after.last_idle_start == Some(
                    clock.now,
                )
                &&& after.last_mode != ControlMode::Idle ==> after.last_idle_start is None
                &&& after.last_mode == ControlMode::Idle || after.last_mode
                    == ControlMode::Standby ==> after.last_active_mode == state.last_active_mode
                &&& after.last_mode == ControlMode::Charge || after.last_mode
                    == ControlMode::Discharge ==> after.last_active_mode == Some(after.last_mode)
            }
            &&& after.last_mode == state.last_mode ==> {
                &&& after.daily_transitions == state.daily_transitions
                &&& after.last_mode_change == state.last_mode_change
                &&& after.last_idle_start == state.last_idle_start
                &&& after.last_active_mode == state.last_active_mode
            }
            &&& after.last_decision == clock.now
            &&& after.daily_cooldown_suppressions == state.daily_cooldown_suppressions
            &&& after.last_cycle_reset_day == state.last_cycle_reset_day
        }),
{
}

/// The limit of the day puts a battery in standby at once, remembers when, and
/// stops the idle timer; it counts no transition of its own.
pub proof fn the_cycle_limit_stands_the_battery_by(
    tuning: SessionConfig,
    state: ControllerState,
    house: House,
    battery: BatteryState,
    clock: Clock,
)
    requires
        !battery.soc_calibrating,
        !battery.fault,
        clock.day_ordinal == state.last_cycle_reset_day,
        0 < tuning.cycle_warn_threshold <= state.daily_transitions,
    ensures
        ({
            let (after, decision) = decided(tuning, state, house, battery, clock);
            &&& decision.mode == ControlMode::Standby
            &&& decision.power.watts == 0
            &&& after.last_mode == ControlMode::Standby
            &&& after.daily_transitions == state.daily_transitions
            &&& after.daily_cooldown_suppressions == state.daily_cooldown_suppressions
            &&& after.last_active_mode == state.last_active_mode
            &&& after.last_decision == clock.now
            &&& if state.last_mode == ControlMode::Standby {
                after.last_mode_change == state.last_mode_change && after.last_idle_start
                    == state.last_idle_start
            } else {
                after.last_mode_change == clock.now && after.last_idle_start is None
            }
        }),
{
}

/// A battery that calibrates or reports a fault is idle from now on, without a
/// transition being counted, and stays so without its timer starting over.
pub proof fn an_unfit_battery_is_remembered_as_idle(
    tuning: SessionConfig,
    state: ControllerState,
    house: House,
    battery: BatteryState,
    clock: Clock,
)
    requires
        battery.soc_calibrating || battery.fault,
    ensures
        ({
            let after = decided(tuning, state, house, battery, clock).0;
            &&& after.last_mode == ControlMode::Idle
            &&& after.daily_transitions == state.daily_transitions
            &&& after.daily_cooldown_suppressions == state.daily_cooldown_suppressions
            &&& after.last_cycle_reset_day == state.last_cycle_reset_day
            &&& after.last_active_mode == state.last_active_mode
            &&& after.last_decision == clock.now
            &&& if state.last_mode == ControlMode::Idle {
                after.last_mode_change == state.last_mode_change && after.last_idle_start
                    == state.last_idle_start
            } else {
                after.last_mode_change == clock.now && after.last_idle_start == Some(clock.now)
            }
        }),
{
}

/// A new day wipes the counters and nothing else: the first decision of it is the
/// one that an empty tally of that day would have led to.
pub proof fn a_new_day_is_like_an_empty_tally(
    tuning: SessionConfig,
    state: ControllerState,
    house: House,
    battery: BatteryState,
    clock: Clock,
)
    requires
        !battery.soc_calibrating,
        !battery.fault,
        clock.day_ordinal != state.last_cycle_reset_day,
    ensures
        decided(tuning, state, house, battery, clock) == decided(
            tuning,
            ControllerState {
                daily_transitions: 0,
                daily_cooldown_suppressions: 0,
                last_cycle_reset_day: clock.day_ordinal,
                ..state
            },
            house,
            battery,
            clock,
        ),
{
}

/// A decision comes exactly when there is a battery and the minimum interval has
/// passed since the last one; otherwise nothing changes. The battery is the first
/// device.
pub proof fn a_decision_comes_when_it_is_due(
    tuning: SessionConfig,
    state: ControllerState,
    house: House,
    clock: Clock,
)
    ensures
        ({
            let (after, decision) = considered(tuning, state, house, clock);
            &&& decision is Some <==> house.devices.len() > 0 && clock.now.ms
                >= state.last_decision.ms + 1000 * tuning.min_decision_interval_secs
            &&& decision is None ==> after == state
            &&& decision is Some ==> after.last_decision == clock.now && (
            house.devices[0].1 matches Measurement::Battery(battery) && (after, decision->0)
                == decided(tuning, state, house, battery, clock))
        }),
{
}

/// A fresh controller has done nothing: it is idle since now, has counted nothing,
/// and may decide and swing at once.
pub proof fn a_fresh_controller_has_done_nothing(
    tuning: SessionConfig,
    state: ControllerState,
    clock: Clock,
)
    requires
        fresh_state(tuning, clock, state),
        clock.now.ms - 1000 * tuning.min_decision_interval_secs >= i64::MIN,
        clock.now.ms - 1000 * tuning.min_mode_duration_secs >= i64::MIN,
    ensures
        state.last_mode == ControlMode::Idle,
        state.last_active_mode is None,
        state.last_idle_start == Some(clock.now),
        state.daily_transitions == 0,
        state.daily_cooldown_suppressions == 0,
        state.last_cycle_reset_day == clock.day_ordinal,
        state.last_decision.ms + 1000 * tuning.min_decision_interval_secs == clock.now.ms,
        state.last_mode_change.ms + 1000 * tuning.min_mode_duration_secs == clock.now.ms,
{
}

/// What is said of a decision names the power that it commands, the reading that
/// it answers and the hour.
pub proof fn a_reason_tells_of_its_decision(
    tuning: SessionConfig,
    state: ControllerState,
    house: House,
    battery: BatteryState,
    clock: Clock,
    export: int,
)
    requires
        house.grid.total.mw == -1000 * export,
        i32::MIN < export <= i32::MAX,
    ensures
        ({
            let decision = decided(tuning, state, house, battery, clock).1;
            let power = decimal(decision.power.watts as nat);
            let begins = decision.mode != state.last_mode && target_power(
                tuning,
                decision.mode,
                house.grid.total,
                battery,
            ) > 0;
            let ramp = if begins {
                " (ramped 75%)"@
            } else {
                ""@
            };
            &&& decision.mode == ControlMode::Charge ==> decision.reason
                == "Solar excess: exporting "@ + signed(export) + "W, charging at "@ + power
                + "W"@ + ramp
            &&& decision.mode == ControlMode::Discharge ==> decision.reason
                == "Grid demand: importing "@ + whole_of_milli(-1000 * export)
                + "W, discharging at "@ + power + "W (hour "@ + decimal(clock.hour as nat) + ")"@
                + ramp
        }),
{
}

/// What is said where the battery is told to do nothing names the cause, with its figures.
pub proof fn a_reason_tells_why_nothing_is_done(
    tuning: SessionConfig,
    state: ControllerState,
    house: House,
    battery: BatteryState,
    clock: Clock,
)
    requires
        clock.day_ordinal == state.last_cycle_reset_day,
    ensures
        ({
            let decision = decided(tuning, state, house, battery, clock).1;
            let limited = 0 < tuning.cycle_warn_threshold <= state.daily_transitions;
            let wanted = target_mode(tuning, state, house, battery, clock);
            let held = clock.now.ms - state.last_mode_change.ms;
            &&& battery.soc_calibrating ==> decision.reason
                == "SOC calibration in progress, idling"@
            &&& !battery.soc_calibrating && battery.fault ==> decision.reason
                == "Device reports a fault, idling"@
            &&& !battery.soc_calibrating && !battery.fault && limited ==> decision.reason
                == "Cycle limit: "@ + decimal(state.daily_transitions as nat)
                + " transitions today (max "@ + decimal(tuning.cycle_warn_threshold as nat)
                + "), standby until midnight"@
            &&& !battery.soc_calibrating && !battery.fault && !limited && wanted
                != ControlMode::Idle && decision.mode == ControlMode::Idle ==> decision.reason
                == "Cooldown: suppressed "@ + wanted.spec_name() + " (was "@
                + state.last_mode.spec_name() + " for "@ + whole_of_milli(held) + "s, min "@
                + decimal(tuning.min_mode_duration_secs as nat) + "s)"@
            &&& !battery.soc_calibrating && !battery.fault && !limited && decision.mode
                == ControlMode::Standby ==> decision.reason == "Idle for "@ + decimal(
                (tuning.idle_timeout_secs / 60) as nat,
            ) + "+ minutes, entering standby"@
            &&& !battery.soc_calibrating && !battery.fault && !limited && wanted
                == ControlMode::Idle && decision.mode == ControlMode::Idle ==> decision.reason
                == "No action needed (grid: "@ + whole_of_milli(house.grid.total.mw as int)
                + "W, hour: "@ + decimal(clock.hour as nat) + ")"@
        }),
{
}

} // verus!
