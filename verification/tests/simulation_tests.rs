use galton::pin_field::{PinCounts, PinField};
use galton::simulation::Simulation;

#[test]
fn tick_runs_one_batch_per_drained_interval() {
    // 1000 triggers per second, 5 particles per batch.
    let mut sim = Simulation::new(3, 1000, 5, 0);
    let ran = sim.tick(2_000);
    assert_eq!(ran, 10);
    assert_eq!(sim.field.total_paths, 10);
    let h = sim.field.histogram();
    let sum: u128 = h.bins.iter().map(|b| *b as u128).sum();
    assert_eq!(sum, 10);
}

#[test]
fn tick_before_the_interval_runs_nothing() {
    let mut sim = Simulation::new(3, 10, 50, 0);
    assert_eq!(sim.tick(40_000), 0);
    assert_eq!(sim.field.total_paths, 0);
    assert_eq!(sim.tick(120_000), 50);
    assert_eq!(sim.field.total_paths, 50);
}

#[test]
fn simulation_reset_zeroes_field_and_accumulator() {
    let mut sim = Simulation::new(4, 10, 2, 0);
    sim.tick(150_000);
    assert_eq!(sim.field.total_paths, 2);
    assert_eq!(sim.scheduler.accumulated_us, 50_000);
    sim.reset();
    assert_eq!(sim.field.total_paths, 0);
    assert_eq!(sim.scheduler.accumulated_us, 0);
    assert_eq!(sim.scheduler.rate, 10);
    for row in &sim.field.counts {
        for slot in row {
            assert_eq!((slot.times_left, slot.times_right), (0, 0));
        }
    }
}

#[test]
fn rejected_rate_leaves_tick_behavior_unchanged() {
    let mut changed = Simulation::new(2, 10, 1, 0);
    let mut control = Simulation::new(2, 10, 1, 0);
    assert!(!changed.set_rate(-1));
    assert_eq!(changed.scheduler.rate, 10);
    for now in [60_000u64, 140_000, 300_000] {
        assert_eq!(changed.tick(now), control.tick(now));
        assert_eq!(changed.field.total_paths, control.field.total_paths);
        assert_eq!(changed.scheduler.accumulated_us, control.scheduler.accumulated_us);
    }
}

#[test]
fn accepted_rate_takes_effect_on_the_next_tick() {
    let mut sim = Simulation::new(2, 1, 1, 0);
    assert!(sim.set_rate(100));
    // One interval is now 10_000 microseconds.
    assert_eq!(sim.tick(30_000), 3);
}

#[test]
fn path_counter_saturates_instead_of_overflowing() {
    let field = PinField {
        counts: vec![vec![PinCounts { times_left: u64::MAX - 1, times_right: 0 }]],
        total_paths: u64::MAX - 1,
        last_path: vec![0],
    };
    let mut sim = Simulation::new(1, 1, 5, 0);
    sim.field = field;
    // Two whole intervals are owed, ten particles, but only one fits.
    let ran = sim.tick(2_000_000);
    assert_eq!(ran, 1);
    assert_eq!(sim.field.total_paths, u64::MAX);
}
