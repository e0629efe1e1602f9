//! Cumulative timing counters for the adaptive stepper.

use vstd::prelude::*;

use crate::space::Scalar;

verus! {

/// Counters a simulation accumulates: frames and steps completed, simulated
/// seconds covered, wall-clock seconds spent computing steps, and the age of
/// the run as of the latest clock reading.
#[derive(Clone, Copy, Debug, PartialEq, Eq, Structural)]
pub struct Stats {
    pub frames: u64,
    pub steps: u64,
    pub simulated_secs: Scalar,
    pub time_used_simulating: Scalar,
    pub real_age: Scalar,
}

/// A counter bumped by one, holding at the top of its range.
pub open spec fn spec_bump(x: u64) -> u64 {
    if x < u64::MAX {
        (x + 1) as u64
    } else {
        x
    }
}

/// The part of `a` exceeding `b`, and zero when there is none.
pub open spec fn spec_floor_sub(a: u64, b: u64) -> u64 {
    if a >= b {
        (a - b) as u64
    } else {
        0
    }
}

impl Stats {
    pub open spec fn spec_zero() -> Stats {
        Stats {
            frames: 0,
            steps: 0,
            simulated_secs: Scalar::spec_zero(),
            time_used_simulating: Scalar::spec_zero(),
            real_age: Scalar::spec_zero(),
        }
    }

    pub fn zero() -> (r: Stats)
        ensures
            r == Self::spec_zero(),
    {
        Stats {
            frames: 0,
            steps: 0,
            simulated_secs: Scalar::zero(),
            time_used_simulating: Scalar::zero(),
            real_age: Scalar::zero(),
        }
    }

    /// Record the start of a frame at the given age and return a copy of the
    /// state at that instant.
    pub fn start_update(&mut self, now: Scalar) -> (r: Stats)
        ensures
            *final(self) == (Stats { real_age: now, ..*old(self) }),
            r == *final(self),
    {
        self.real_age = now;
        *self
    }

    /// Record the completion of a frame.
    pub fn end_update(&mut self)
        ensures
            *final(self) == (Stats { frames: spec_bump(old(self).frames), ..*old(self) }),
    {
        if self.frames < u64::MAX {
            self.frames = self.frames + 1;
        }
    }

    /// Record one completed step: it covered `dt` simulated seconds, took
    /// `cost` wall-clock seconds to compute, and finished at age `now`.
    pub fn track_step(&mut self, dt: Scalar, cost: Scalar, now: Scalar)
        ensures
            *final(self) == (Stats {
                steps: spec_bump(old(self).steps),
                simulated_secs: old(self).simulated_secs.spec_add(dt),
                time_used_simulating: old(self).time_used_simulating.spec_add(cost),
                real_age: now,
                ..*old(self)
            }),
    {
        if self.steps < u64::MAX {
            self.steps = self.steps + 1;
        }
        self.simulated_secs = self.simulated_secs.add(dt);
        self.time_used_simulating = self.time_used_simulating.add(cost);
        self.real_age = now;
    }

    pub open spec fn spec_relative_to(self, baseline: Stats) -> Stats {
        Stats {
            frames: spec_floor_sub(self.frames, baseline.frames),
            steps: spec_floor_sub(self.steps, baseline.steps),
            simulated_secs: self.simulated_secs.spec_sub(baseline.simulated_secs),
            time_used_simulating: self.time_used_simulating.spec_sub(
                baseline.time_used_simulating,
            ),
            real_age: self.real_age.spec_sub(baseline.real_age),
        }
    }

    /// The change in every counter since `baseline`.
    pub fn relative_to(&self, baseline: Stats) -> (r: Stats)
        ensures
            r == self.spec_relative_to(baseline),
    {
        Stats {
            frames: if self.frames >= baseline.frames {
                self.frames - baseline.frames
            } else {
                0
            },
            steps: if self.steps >= baseline.steps {
                self.steps - baseline.steps
            } else {
                0
            },
            simulated_secs: self.simulated_secs.sub(baseline.simulated_secs),
            time_used_simulating: self.time_used_simulating.sub(baseline.time_used_simulating),
            real_age: self.real_age.sub(baseline.real_age),
        }
    }

    pub open spec fn spec_lag(self) -> Scalar {
        self.real_age.spec_sub(self.simulated_secs)
    }

    /// How far simulated time trails the run's age; negative when the
    /// simulation has run ahead.
    pub fn lag(&self) -> (r: Scalar)
        ensures
            r == self.spec_lag(),
    {
        self.real_age.sub(self.simulated_secs)
    }

    /// The number of steps as a scalar, held at the scalar's whole-number
    /// ceiling.
    pub open spec fn spec_steps_scalar(self) -> Scalar {
        if self.steps > 0x7fffffffffffffff {
            Scalar::spec_from_int(0x7fffffffffffffff)
        } else {
            Scalar::spec_from_int(self.steps as int)
        }
    }

    pub open spec fn spec_mean_work_per_step(self) -> Option<Scalar> {
        if self.steps == 0 {
            None
        } else {
            Some(self.time_used_simulating.spec_div(self.spec_steps_scalar()))
        }
    }

    /// The average wall-clock cost of one step, or nothing before the first
    /// step has been measured.
    pub fn mean_work_per_step(&self) -> (r: Option<Scalar>)
        ensures
            r == self.spec_mean_work_per_step(),
    {
        if self.steps == 0 {
            None
        } else {
            let s: i64 = if self.steps > 0x7fffffffffffffff {
                0x7fffffffffffffff
            } else {
                self.steps as i64
            };
            Some(self.time_used_simulating.div(Scalar::from_int(s)))
        }
    }
}

impl Default for Stats {
    /// A run that has not yet begun: every counter at zero.
    fn default() -> (r: Stats)
        ensures
            r == Stats::spec_zero(),
    {
        Stats::zero()
    }
}

} // verus!
