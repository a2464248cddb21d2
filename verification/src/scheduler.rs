//! Decouples the simulation cadence from the frame cadence: elapsed time is
//! accumulated in whole microseconds, and every full trigger interval that
//! has accumulated yields one batch of particles.
//!
//! Catch-up policy: the accumulator is drained fully on each tick (every
//! whole interval owed is triggered at once), and the remainder is carried
//! forward. Rates above one trigger per microsecond are capped by the
//! microsecond resolution.

use vstd::prelude::*;

verus! {

/// Microseconds per second: the resolution of the scheduler's time base.
pub const MICROS_PER_SECOND: u64 = 1_000_000;

/// The trigger interval, in microseconds, of a rate given in triggers per
/// second: `1 / rate` seconds, floored to whole microseconds and never
/// shorter than one microsecond. Meaningful for `rate >= 1`.
pub open spec fn interval_us_of(rate: u64) -> int {
    if rate > MICROS_PER_SECOND {
        1int
    } else {
        MICROS_PER_SECOND as int / rate as int
    }
}

/// The time elapsed between two timestamps, clamped to zero when the clock
/// ran backwards.
pub open spec fn elapsed_us(last: u64, now: u64) -> int {
    if now >= last {
        now - last
    } else {
        0
    }
}

/// Accumulates elapsed time and says how many update batches are due at a
/// configurable rate, independently of how often ticks arrive.
pub struct UpdateScheduler {
    /// Leftover time carried between ticks, in microseconds.
    pub accumulated_us: u64,
    /// Triggered updates per second; always at least one.
    pub rate: u64,
    /// Particles simulated per triggered update.
    pub batch_size: u32,
    /// The timestamp the previous tick delivered.
    pub last_now_us: u64,
}

impl UpdateScheduler {
    /// The rate is positive and the carried remainder never exceeds one
    /// second: each tick drains every whole interval.
    pub open spec fn well_formed(self) -> bool {
        &&& self.rate >= 1
        &&& self.accumulated_us <= MICROS_PER_SECOND
    }

    /// The batches due when a tick delivers `now_us`.
    pub open spec fn batches_due(self, now_us: u64) -> int {
        (self.accumulated_us + elapsed_us(self.last_now_us, now_us)) / interval_us_of(self.rate)
    }

    /// A scheduler with an empty accumulator, ready for ticks after
    /// `start_us`.
    pub fn new(rate: u64, batch_size: u32, start_us: u64) -> (s: UpdateScheduler)
        requires
            rate >= 1,
        ensures
            s.well_formed(),
            s.accumulated_us == 0,
            s.rate == rate,
            s.batch_size == batch_size,
            s.last_now_us == start_us,
    {
        UpdateScheduler { accumulated_us: 0, rate, batch_size, last_now_us: start_us }
    }

    /// Processes one tick delivering the monotonic timestamp `now_us`:
    /// clamps a backwards clock step to zero, accumulates the elapsed time,
    /// and drains one whole trigger interval per returned batch, carrying
    /// the remainder forward.
    pub fn tick(&mut self, now_us: u64) -> (due: u64)
        requires
            old(self).well_formed(),
            now_us <= u64::MAX - MICROS_PER_SECOND,
        ensures
            final(self).well_formed(),
            final(self).rate == old(self).rate,
            final(self).batch_size == old(self).batch_size,
            final(self).last_now_us == now_us,
            due == old(self).batches_due(now_us),
            final(self).accumulated_us == (old(self).accumulated_us + elapsed_us(
                old(self).last_now_us,
                now_us,
            )) % interval_us_of(old(self).rate),
    {
        let dt = if now_us >= self.last_now_us {
            now_us - self.last_now_us
        } else {
            0
        };
        let total = self.accumulated_us + dt;
        let interval = interval_us(self.rate);
        let due = total / interval;
        self.accumulated_us = total % interval;
        self.last_now_us = now_us;
        due
    }

    /// Replaces the rate; a non-positive value is rejected and the previous
    /// valid rate kept, so no zero or negative trigger interval can arise.
    pub fn set_rate(&mut self, new_rate: i64) -> (accepted: bool)
        ensures
            accepted == (new_rate >= 1),
            !accepted ==> *final(self) == *old(self),
            final(self).rate == if new_rate >= 1 {
                new_rate as u64
            } else {
                old(self).rate
            },
            final(self).accumulated_us == old(self).accumulated_us,
            final(self).batch_size == old(self).batch_size,
            final(self).last_now_us == old(self).last_now_us,
            old(self).well_formed() ==> final(self).well_formed(),
    {
        if new_rate >= 1 {
            self.rate = new_rate as u64;
            true
        } else {
            false
        }
    }

    /// Empties the accumulator, as a reset of the whole simulation asks;
    /// rate, batch size and the time reference are kept.
    pub fn clear_accumulator(&mut self)
        ensures
            final(self).accumulated_us == 0,
            final(self).rate == old(self).rate,
            final(self).batch_size == old(self).batch_size,
            final(self).last_now_us == old(self).last_now_us,
            old(self).well_formed() ==> final(self).well_formed(),
    {
        self.accumulated_us = 0;
    }
}

/// The executable trigger interval; matches `interval_us_of`.
fn interval_us(rate: u64) -> (interval: u64)
    requires
        rate >= 1,
    ensures
        interval == interval_us_of(rate),
        1 <= interval <= MICROS_PER_SECOND,
{
    let q = MICROS_PER_SECOND / rate;
    proof {
        if rate > MICROS_PER_SECOND {
            vstd::arithmetic::div_mod::lemma_basic_div(MICROS_PER_SECOND as int, rate as int);
        } else {
            vstd::arithmetic::div_mod::lemma_div_non_zero(MICROS_PER_SECOND as int, rate as int);
        }
    }
    if q == 0 {
        1
    } else {
        q
    }
}

} // verus!
