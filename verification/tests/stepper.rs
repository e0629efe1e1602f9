use barnes_hut::Clock;
use barnes_hut::Model;
use barnes_hut::RealClock;
use barnes_hut::Scalar;
use barnes_hut::Simulation;
use barnes_hut::Stats;

/// A model whose step costs nothing and does nothing: the stepper's timing
/// behavior can then be observed in isolation.
struct Idle;

impl Model for Idle {
    fn step(&mut self, _dt: Scalar) {}
}

/// A synthetic clock that advances by a fixed cost on every reading.
struct MockClock {
    now: u64,
    cost_per_read: u64,
}

impl Clock for MockClock {
    fn now_micros(&mut self) -> u64 {
        self.now += self.cost_per_read;
        self.now
    }
}

/// With a fixed per-step cost, repeated frames keep the lag between real age
/// and simulated time bounded: the catch-up rate lets the simulation reel in
/// any deficit instead of drifting further behind.
#[test]
fn lag_stays_bounded_over_many_frames() {
    let mut sim = Simulation::new(Idle);
    let mut clock = MockClock { now: 0, cost_per_read: 200 };

    let mut max_lag_raw: i64 = 0;
    for _ in 0..1000 {
        sim.update(&mut clock);
        let snapshot: Stats = sim.stats_snapshot();
        let lag = snapshot.lag();
        if lag.raw > max_lag_raw {
            max_lag_raw = lag.raw;
        }
    }

    // Bounded: the worst lag over a thousand synthetic frames stays under
    // two seconds, instead of growing with the frame count.
    assert!(max_lag_raw < 2 * 65536, "lag grew to raw {}", max_lag_raw);
    assert!(sim.stats_snapshot().steps >= 1000);
}

/// Simulated time never moves backwards, frame over frame.
#[test]
fn simulated_time_is_monotone() {
    let mut sim = Simulation::new(Idle);
    let mut clock = MockClock { now: 0, cost_per_read: 350 };

    let mut prev_raw: i64 = 0;
    for _ in 0..200 {
        sim.update(&mut clock);
        let now_raw = sim.stats_snapshot().simulated_secs.raw;
        assert!(now_raw >= prev_raw);
        prev_raw = now_raw;
    }
    assert!(prev_raw > 0);
}

/// Resetting the stats zeroes every counter but keeps the model.
#[test]
fn reset_stats_clears_counters() {
    let mut sim = Simulation::new(Idle);
    let mut clock = MockClock { now: 0, cost_per_read: 100 };
    sim.update(&mut clock);
    assert!(sim.stats_snapshot().steps > 0);
    sim.reset_stats();
    assert_eq!(sim.stats_snapshot().steps, 0);
    assert_eq!(sim.stats_snapshot().frames, 0);
    assert_eq!(sim.stats_snapshot().simulated_secs.raw, 0);
}

/// Stats arithmetic: deltas, lag and the mean step cost.
#[test]
fn stats_accounting() {
    let mut stats = Stats::zero();
    assert_eq!(stats.mean_work_per_step(), None);

    stats.track_step(Scalar::from_int(2), Scalar::from_int(1), Scalar::from_int(10));
    stats.track_step(Scalar::from_int(2), Scalar::from_int(3), Scalar::from_int(14));
    assert_eq!(stats.steps, 2);
    assert_eq!(stats.simulated_secs, Scalar::from_int(4));
    assert_eq!(stats.lag(), Scalar::from_int(10));
    assert_eq!(stats.mean_work_per_step(), Some(Scalar::from_int(2)));

    let mut later = stats;
    later.track_step(Scalar::from_int(1), Scalar::from_int(2), Scalar::from_int(20));
    later.end_update();
    let delta = later.relative_to(stats);
    assert_eq!(delta.steps, 1);
    assert_eq!(delta.frames, 1);
    assert_eq!(delta.simulated_secs, Scalar::from_int(1));
    assert_eq!(delta.real_age, Scalar::from_int(6));
}

/// The stepper works against the real wall clock as well: one frame runs at
/// least one step and completes.
#[test]
fn real_clock_frame_completes() {
    let mut sim = Simulation::new(Idle);
    let mut clock = RealClock::new();
    sim.update(&mut clock);
    let snapshot = sim.stats_snapshot();
    assert!(snapshot.steps >= 1);
    assert_eq!(snapshot.frames, 1);
}
