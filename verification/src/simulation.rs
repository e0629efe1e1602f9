//! The adaptive simulation stepper.
//!
//! `Simulation` drives a model through integration steps, one frame at a
//! time. Each frame it picks a target amount of simulated time, then runs
//! steps whose size it adapts from the measured mean cost per step, until
//! the target is reached, the frame's wall-clock deadline passes, or a hard
//! step-count breaker trips. Wall time enters only through the `Clock`
//! argument, so a test can drive the stepper with a synthetic clock.

use vstd::prelude::*;

use crate::space::at_least;
use crate::space::at_most;
use crate::space::Scalar;
use crate::stats::spec_bump;
use crate::stats::Stats;
use crate::universe::Universe;

verus! {

/// Something the stepper can advance by a simulated time slice.
pub trait Model: Sized {
    fn step(&mut self, dt: Scalar);
}

impl Model for Universe {
    fn step(&mut self, dt: Scalar) {
        Universe::step(self, dt)
    }
}

/// A source of wall-clock readings, in microseconds from some fixed start.
/// Nothing is assumed of the readings, so implementations may be real
/// clocks or synthetic ones.
pub trait Clock {
    fn now_micros(&mut self) -> u64;
}

/// Declares instant's `Instant` so a clock can hold its creation timestamp;
/// the value itself is opaque to the proofs.
#[verifier::external_type_specification]
#[verifier::external_body]
pub struct ExInstant(instant::Instant);

/// The wall clock: readings measure real time since the clock was made.
pub struct RealClock {
    start: instant::Instant,
}

impl RealClock {
    /// Relies on instant's `Instant::now` for the creation timestamp.
    #[verifier::external_body]
    pub fn new() -> RealClock {
        RealClock { start: instant::Instant::now() }
    }

    /// Relies on instant's `Instant::elapsed`: the wall-clock time since the
    /// clock was created, in whole microseconds, held at the top of the
    /// `u64` range.
    #[verifier::external_body]
    fn read_micros(&self) -> u64 {
        let us: u128 = self.start.elapsed().as_micros();
        if us > u64::MAX as u128 {
            u64::MAX
        } else {
            us as u64
        }
    }
}

impl Clock for RealClock {
    fn now_micros(&mut self) -> u64 {
        self.read_micros()
    }
}

/// An explicit rate limiter: it allows an event when at least `interval` has
/// passed since the last allowed one, and always allows the first.
#[derive(Clone, Copy, Debug, PartialEq, Eq, Structural)]
pub struct RateLimiter {
    pub interval: Scalar,
    pub last_allowed: Option<Scalar>,
}

impl RateLimiter {
    pub fn new(interval: Scalar) -> (r: RateLimiter)
        ensures
            r == (RateLimiter { interval, last_allowed: None::<Scalar> }),
    {
        RateLimiter { interval, last_allowed: None }
    }

    pub open spec fn spec_allows(self, now: Scalar) -> bool {
        match self.last_allowed {
            None => true,
            Some(t) => now.spec_sub(t).raw >= self.interval.raw,
        }
    }

    /// Whether an event at `now` is allowed; an allowed event becomes the
    /// new reference point.
    pub fn allow(&mut self, now: Scalar) -> (r: bool)
        ensures
            r == old(self).spec_allows(now),
            r ==> *final(self) == (RateLimiter { last_allowed: Some(now), ..*old(self) }),
            !r ==> *final(self) == *old(self),
    {
        let run: bool = match self.last_allowed {
            None => true,
            Some(t) => now.sub(t).raw >= self.interval.raw,
        };
        if run {
            self.last_allowed = Some(now);
        }
        run
    }
}

/// The raw frame interval the stepper aims at: one sixtieth of a second.
pub const TARGET_FRAME_INTERVAL_RAW: i64 = 1092;

/// The raw upper bound on one step's simulated time: one hundredth of a
/// second, bounding integration error.
pub const MAX_DT_RAW: i64 = 655;

/// The raw catch-up factor: simulated time may advance up to one and one
/// tenth times faster than real time when the simulation trails.
pub const CATCHUP_RATE_RAW: i64 = 72089;

/// The hard breaker on steps within a single frame: whatever the clock
/// reports, no call to `update` runs more steps than this.
pub const MAX_STEPS_PER_UPDATE: u64 = 10000;

/// A model together with the stepper state that drives it: cumulative
/// counters, the counters as of the previous frame's start, and the target
/// and deadline the most recent frame worked against.
#[derive(Debug)]
pub struct Simulation<M> {
    pub model: M,
    pub stats: Stats,
    pub stats_at_prev_update_start: Stats,
    /// The simulated age the most recent frame tried to reach.
    pub last_target_sim_age: Scalar,
    /// The real age past which the most recent frame stopped stepping.
    pub last_deadline: Scalar,
}

impl<M: Model> Simulation<M> {
    pub fn new(model: M) -> (r: Simulation<M>)
        ensures
            r.model == model,
            r.stats == Stats::spec_zero(),
            r.stats_at_prev_update_start == Stats::spec_zero(),
            r.last_target_sim_age == Scalar::spec_zero(),
            r.last_deadline == Scalar::spec_zero(),
    {
        Simulation {
            model,
            stats: Stats::zero(),
            stats_at_prev_update_start: Stats::zero(),
            last_target_sim_age: Scalar::zero(),
            last_deadline: Scalar::zero(),
        }
    }

    /// The most recent frame has settled: the simulated age passed the
    /// recorded target, or the recorded deadline passed, or the step counter
    /// rose by the breaker bound (or pinned at its ceiling) since
    /// `steps_before`.
    pub open spec fn spec_frame_settled(self, steps_before: u64) -> bool {
        ||| self.stats.simulated_secs.raw > self.last_target_sim_age.raw
        ||| self.stats.real_age.raw > self.last_deadline.raw
        ||| self.stats.steps == u64::MAX
        ||| self.stats.steps - steps_before >= MAX_STEPS_PER_UPDATE
    }

    /// The simulated age a frame starting at age `now` works toward, when
    /// the previous frame started at `prev_real_age` and simulated time
    /// stood at `sim_before`: at most one frame interval past the current
    /// age, and never advancing simulated time faster than the catch-up
    /// rate allows.
    pub open spec fn spec_frame_target(
        prev_real_age: Scalar,
        sim_before: Scalar,
        now: Scalar,
    ) -> Scalar {
        let frame_interval = now.spec_sub(prev_real_age);
        now.spec_add(frame_interval).spec_min(
            sim_before.spec_add(frame_interval.spec_mul(Scalar { raw: CATCHUP_RATE_RAW })),
        )
    }

    /// The real age past which a frame starting at age `now` stops
    /// stepping: one target interval ahead, shortened by however far the
    /// previous frame overran the target interval.
    pub open spec fn spec_frame_deadline(prev_real_age: Scalar, now: Scalar) -> Scalar {
        let frame_interval = now.spec_sub(prev_real_age);
        now.spec_add(Scalar { raw: TARGET_FRAME_INTERVAL_RAW }).spec_sub(
            frame_interval.spec_sub(Scalar { raw: TARGET_FRAME_INTERVAL_RAW }).spec_max(
                Scalar::spec_zero(),
            ),
        )
    }

    /// The recorded previous-frame-start counters agree with `s` on
    /// everything a clock reading cannot change.
    pub open spec fn spec_prev_start_matches(self, s: Stats) -> bool {
        &&& self.stats_at_prev_update_start.frames == s.frames
        &&& self.stats_at_prev_update_start.steps == s.steps
        &&& self.stats_at_prev_update_start.simulated_secs == s.simulated_secs
        &&& self.stats_at_prev_update_start.time_used_simulating == s.time_used_simulating
    }

    /// Run one frame's worth of simulation against the given clock.
    ///
    /// The frame reads the clock, fixes a simulated-age target — never more
    /// than one frame interval past the current real age, and never
    /// advancing faster than the catch-up rate allows — and a wall-clock
    /// deadline, then repeatedly: picks a step size from the measured mean
    /// cost per step (a zero-sized observation step while no cost has been
    /// measured), capped and never negative, and runs one model step.
    ///
    /// Whatever the clock reports: simulated time never moves backwards; at
    /// least one step runs; the recorded target and deadline are exactly
    /// the frame formulas over the recorded frame-start age; on return the
    /// simulated age has passed the target or the deadline has passed,
    /// unless the step-count breaker tripped first; and the simulated age
    /// overshoots the target by at most one maximal step.
    pub fn update<C: Clock>(&mut self, clock: &mut C)
        ensures
            final(self).stats.simulated_secs.raw >= old(self).stats.simulated_secs.raw,
            final(self).stats.steps >= old(self).stats.steps,
            (old(self).stats.steps < u64::MAX) ==> final(self).stats.steps > old(self).stats.steps,
            final(self).stats.frames == spec_bump(old(self).stats.frames),
            final(self).spec_frame_settled(old(self).stats.steps),
            final(self).spec_prev_start_matches(old(self).stats),
            final(self).last_target_sim_age == Self::spec_frame_target(
                old(self).stats_at_prev_update_start.real_age,
                old(self).stats.simulated_secs,
                final(self).stats_at_prev_update_start.real_age,
            ),
            final(self).last_deadline == Self::spec_frame_deadline(
                old(self).stats_at_prev_update_start.real_age,
                final(self).stats_at_prev_update_start.real_age,
            ),
            (final(self).stats.steps < u64::MAX && final(self).stats.steps - old(self).stats.steps
                < MAX_STEPS_PER_UPDATE)
                ==> final(self).stats.simulated_secs.raw > final(self).last_target_sim_age.raw
                || final(self).stats.real_age.raw > final(self).last_deadline.raw,
            final(self).stats.simulated_secs.raw <= old(self).stats.simulated_secs.spec_max(
                final(self).last_target_sim_age,
            ).raw + MAX_DT_RAW,
    {
        let now0: Scalar = Scalar::from_micros(clock.now_micros());
        let update_start: Stats = self.stats.start_update(now0);

        let frame_interval: Scalar = update_start.real_age.sub(
            self.stats_at_prev_update_start.real_age,
        );
        let prev_frame_overrun: Scalar = at_least(
            frame_interval.sub(Scalar { raw: TARGET_FRAME_INTERVAL_RAW }),
            Scalar::zero(),
        );
        let deadline: Scalar = update_start.real_age.add(
            Scalar { raw: TARGET_FRAME_INTERVAL_RAW },
        ).sub(prev_frame_overrun);
        let target_sim_age: Scalar = at_most(
            update_start.real_age.add(frame_interval),
            update_start.simulated_secs.add(frame_interval.mul(Scalar { raw: CATCHUP_RATE_RAW })),
        );
        self.last_target_sim_age = target_sim_age;
        self.last_deadline = deadline;

        let ghost steps0: u64 = old(self).stats.steps;
        let ghost sim0: Scalar = old(self).stats.simulated_secs;
        let mut iters: u64 = 0;
        loop
            invariant_except_break
                iters < MAX_STEPS_PER_UPDATE,
                self.stats.steps == u64::MAX || self.stats.steps == steps0 + iters,
                self.stats.steps >= steps0,
                self.stats.simulated_secs.raw >= sim0.raw,
                self.stats.simulated_secs.raw <= sim0.spec_max(target_sim_age).raw,
                self.stats.frames == old(self).stats.frames,
                self.last_target_sim_age == target_sim_age,
                self.last_deadline == deadline,
                self.stats_at_prev_update_start == old(self).stats_at_prev_update_start,
            ensures
                self.stats.steps >= steps0,
                steps0 < u64::MAX ==> self.stats.steps > steps0,
                self.stats.simulated_secs.raw >= sim0.raw,
                self.stats.simulated_secs.raw <= sim0.spec_max(target_sim_age).raw + MAX_DT_RAW,
                self.stats.frames == old(self).stats.frames,
                self.last_target_sim_age == target_sim_age,
                self.last_deadline == deadline,
                self.stats_at_prev_update_start == old(self).stats_at_prev_update_start,
                self.spec_frame_settled(steps0),
                (self.stats.steps < u64::MAX && self.stats.steps - steps0 < MAX_STEPS_PER_UPDATE)
                    ==> self.stats.simulated_secs.raw > target_sim_age.raw
                    || self.stats.real_age.raw > deadline.raw,
            decreases MAX_STEPS_PER_UPDATE - iters,
        {
            let since_last_update: Stats = self.stats.relative_to(self.stats_at_prev_update_start);
            let dt: Scalar = match since_last_update.mean_work_per_step() {
                Some(estimated_step_cost) => {
                    let sim_time_remaining: Scalar = target_sim_age.sub(self.stats.simulated_secs);
                    let update_time_remaining: Scalar = deadline.sub(self.stats.real_age);
                    let expected_steps_remaining: Scalar = at_least(
                        update_time_remaining.div(estimated_step_cost).trunc(),
                        Scalar::from_int(1),
                    );
                    at_least(
                        at_most(
                            sim_time_remaining.div(expected_steps_remaining),
                            Scalar { raw: MAX_DT_RAW },
                        ),
                        Scalar::zero(),
                    )
                },
                None => Scalar::zero(),
            };

            let step_started: u64 = clock.now_micros();
            self.model.step(dt);
            let step_ended: u64 = clock.now_micros();
            let cost_micros: u64 = if step_ended >= step_started {
                step_ended - step_started
            } else {
                0
            };
            self.stats.track_step(dt, Scalar::from_micros(cost_micros), Scalar::from_micros(
                step_ended,
            ));
            iters = iters + 1;

            if self.stats.simulated_secs.raw > target_sim_age.raw || self.stats.real_age.raw
                > deadline.raw || iters >= MAX_STEPS_PER_UPDATE {
                break;
            }
        }

        self.stats_at_prev_update_start = update_start;
        self.stats.end_update();
    }

    /// Forget all accumulated timing state; the model itself is untouched.
    pub fn reset_stats(&mut self)
        ensures
            final(self).model == old(self).model,
            final(self).stats == Stats::spec_zero(),
            final(self).stats_at_prev_update_start == Stats::spec_zero(),
            final(self).last_target_sim_age == Scalar::spec_zero(),
            final(self).last_deadline == Scalar::spec_zero(),
    {
        self.stats = Stats::zero();
        self.stats_at_prev_update_start = Stats::zero();
        self.last_target_sim_age = Scalar::zero();
        self.last_deadline = Scalar::zero();
    }

    /// The current counters, for display: step count, simulated seconds and
    /// lag are read from the returned value.
    pub fn stats_snapshot(&self) -> (r: Stats)
        ensures
            r == self.stats,
    {
        self.stats
    }
}

} // verus!
