//! The shared simulation state as one owned aggregate: the pin field and the
//! update scheduler, driven by ticks and by the reset and rate-change events.
//! A host keeps it behind one exclusive-access lock so that a tick's batch
//! update, a reset and a rate change never interleave.

use vstd::prelude::*;

use crate::pin_field::{lemma_no_counter_decreased_trans, no_counter_decreased, PinField};
use crate::scheduler::{UpdateScheduler, MICROS_PER_SECOND};

verus! {

/// The whole simulation state between ticks.
pub struct Simulation {
    pub field: PinField,
    pub scheduler: UpdateScheduler,
}

/// The particles owed when a tick delivers `now_us`: one batch per drained
/// interval.
pub open spec fn paths_owed(s: Simulation, now_us: u64) -> int {
    s.scheduler.batches_due(now_us) * s.scheduler.batch_size
}

/// The particles a tick delivering `now_us` actually runs: all that are
/// owed, except that the path counter saturates rather than overflow.
pub open spec fn paths_run(s: Simulation, now_us: u64) -> int {
    if paths_owed(s, now_us) <= u64::MAX - s.field.total_paths {
        paths_owed(s, now_us)
    } else {
        u64::MAX - s.field.total_paths
    }
}

impl Simulation {
    /// The field is triangular and conserved, the scheduler's rate positive.
    pub open spec fn well_formed(self) -> bool {
        &&& self.field.well_formed()
        &&& self.field.balanced()
        &&& self.scheduler.well_formed()
    }

    /// A fresh simulation: an all-zero field of `row_count` rows and an
    /// empty time accumulator.
    pub fn new(row_count: usize, rate: u64, batch_size: u32, start_us: u64) -> (s: Simulation)
        requires
            rate >= 1,
        ensures
            s.well_formed(),
            s.field.row_count() == row_count,
            s.field.is_zero_state(),
            s.scheduler.accumulated_us == 0,
            s.scheduler.rate == rate,
            s.scheduler.batch_size == batch_size,
            s.scheduler.last_now_us == start_us,
    {
        Simulation {
            field: PinField::new(row_count),
            scheduler: UpdateScheduler::new(rate, batch_size, start_us),
        }
    }

    /// Processes one tick delivering the monotonic timestamp `now_us`: the
    /// scheduler accumulates the elapsed time and is drained fully, and one
    /// batch of random particles runs per drained interval. Returns how many
    /// particles ran.
    pub fn tick(&mut self, now_us: u64) -> (ran: u64)
        requires
            old(self).well_formed(),
            now_us <= u64::MAX - MICROS_PER_SECOND,
        ensures
            final(self).well_formed(),
            final(self).field.row_count() == old(self).field.row_count(),
            ran == paths_run(*old(self), now_us),
            final(self).field.total_paths == old(self).field.total_paths + ran,
            no_counter_decreased(old(self).field, final(self).field),
            final(self).scheduler.rate == old(self).scheduler.rate,
            final(self).scheduler.batch_size == old(self).scheduler.batch_size,
            final(self).scheduler.last_now_us == now_us,
            final(self).scheduler.accumulated_us == (old(self).scheduler.accumulated_us
                + crate::scheduler::elapsed_us(old(self).scheduler.last_now_us, now_us))
                % crate::scheduler::interval_us_of(old(self).scheduler.rate),
    {
        let due = self.scheduler.tick(now_us);
        proof {
            vstd::arithmetic::mul::lemma_mul_upper_bound(
                due as int,
                u64::MAX as int,
                self.scheduler.batch_size as int,
                u32::MAX as int,
            );
        }
        let owed: u128 = (due as u128) * (self.scheduler.batch_size as u128);
        let headroom: u64 = u64::MAX - self.field.total_paths;
        let run: u64 = if owed <= headroom as u128 {
            owed as u64
        } else {
            headroom
        };
        let ghost sched = self.scheduler;
        let mut k: u64 = 0;
        while k < run
            invariant
                k <= run,
                run <= u64::MAX - old(self).field.total_paths,
                self.field.well_formed(),
                self.field.balanced(),
                self.field.row_count() == old(self).field.row_count(),
                self.field.total_paths == old(self).field.total_paths + k,
                no_counter_decreased(old(self).field, self.field),
                self.scheduler == sched,
            decreases run - k,
        {
            let ghost before = self.field;
            self.field.simulate_path();
            proof {
                lemma_no_counter_decreased_trans(old(self).field, before, self.field);
            }
            k = k + 1;
        }
        run
    }

    /// Handles the reset event: zeroes the field and empties the scheduler's
    /// accumulator; the row count, rate and batch size are kept.
    pub fn reset(&mut self)
        requires
            old(self).scheduler.well_formed(),
        ensures
            final(self).well_formed(),
            final(self).field.row_count() == old(self).field.row_count(),
            final(self).field.is_zero_state(),
            final(self).scheduler.accumulated_us == 0,
            final(self).scheduler.rate == old(self).scheduler.rate,
            final(self).scheduler.batch_size == old(self).scheduler.batch_size,
            final(self).scheduler.last_now_us == old(self).scheduler.last_now_us,
    {
        self.field.reset();
        self.scheduler.clear_accumulator();
    }

    /// Handles the rate-change event: a non-positive rate is rejected and
    /// the whole state is left exactly as it was, so later ticks behave as
    /// if the call had not happened.
    pub fn set_rate(&mut self, new_rate: i64) -> (accepted: bool)
        ensures
            accepted == (new_rate >= 1),
            !accepted ==> *final(self) == *old(self),
            final(self).field == old(self).field,
            final(self).scheduler.rate == if new_rate >= 1 {
                new_rate as u64
            } else {
                old(self).scheduler.rate
            },
            final(self).scheduler.accumulated_us == old(self).scheduler.accumulated_us,
            final(self).scheduler.batch_size == old(self).scheduler.batch_size,
            final(self).scheduler.last_now_us == old(self).scheduler.last_now_us,
            old(self).well_formed() ==> final(self).well_formed(),
    {
        self.scheduler.set_rate(new_rate)
    }
}

} // verus!
