//! Advances particles through the pin field: one fair left/right choice per
//! row, counters folded into the field, the most recent trajectory recorded.

use vstd::prelude::*;

use crate::pin_field::{
    bumped, lemma_no_counter_decreased_trans, lemma_row_total_update, lemma_slot_le_row_total,
    no_counter_decreased, row_total, PinField,
};

verus! {

/// The pin index at which a particle that makes the choices `choices` stands
/// when it reaches `row`: a left choice keeps the pin, a right choice moves
/// one pin to the right.
pub open spec fn pin_at(choices: Seq<bool>, row: int) -> int
    decreases row,
{
    if row <= 0 {
        0
    } else {
        pin_at(choices, row - 1) + if choices[row - 1] {
            0int
        } else {
            1int
        }
    }
}

/// A particle can never stand right of its row's last pin.
pub proof fn lemma_pin_at_bounds(choices: Seq<bool>, row: int)
    requires
        0 <= row,
    ensures
        0 <= pin_at(choices, row) <= row,
    decreases row,
{
    if row > 0 {
        lemma_pin_at_bounds(choices, row - 1);
    }
}

/// Relies on `rand::random` with the `StandardUniform` distribution on
/// `bool`: an independent fair draw. Nothing is promised of the value.
#[verifier::external_body]
fn random_bool() -> bool {
    rand::random()
}

impl PinField {
    /// Simulates one particle whose choice at row `i` is `choices[i]` (`true`
    /// for left). Records the choice on every row's slot, stores the pre-move
    /// pin of each row in `last_path`, and counts the completed path.
    pub fn simulate_path_with_choices(&mut self, choices: &Vec<bool>)
        requires
            old(self).well_formed(),
            old(self).balanced(),
            choices@.len() == old(self).row_count(),
            old(self).total_paths < u64::MAX,
        ensures
            final(self).well_formed(),
            final(self).balanced(),
            final(self).row_count() == old(self).row_count(),
            final(self).total_paths == old(self).total_paths + 1,
            final(self).last_path@.len() == choices@.len(),
            forall|i: int|
                0 <= i < choices@.len() ==> (#[trigger] final(self).last_path@[i]) == pin_at(
                    choices@,
                    i,
                ),
            forall|i: int|
                0 <= i < choices@.len() ==> (#[trigger] final(self).counts@[i]@) == old(
                    self,
                ).counts@[i]@.update(
                    pin_at(choices@, i),
                    bumped(old(self).counts@[i]@[pin_at(choices@, i)], choices@[i]),
                ),
            no_counter_decreased(*old(self), *final(self)),
    {
        let row_count = self.counts.len();
        let mut current_pin: usize = 0;
        let mut row: usize = 0;
        while row < row_count
            invariant
                row <= row_count,
                choices@.len() == row_count,
                self.well_formed(),
                self.counts@.len() == row_count,
                self.total_paths == old(self).total_paths,
                old(self).well_formed(),
                old(self).balanced(),
                old(self).total_paths < u64::MAX,
                old(self).counts@.len() == row_count,
                current_pin == pin_at(choices@, row as int),
                current_pin <= row,
                forall|i: int|
                    0 <= i < row ==> (#[trigger] self.counts@[i]@) == old(
                        self,
                    ).counts@[i]@.update(
                        pin_at(choices@, i),
                        bumped(old(self).counts@[i]@[pin_at(choices@, i)], choices@[i]),
                    ),
                forall|i: int|
                    row <= i < row_count ==> (#[trigger] self.counts@[i]) == old(self).counts@[i],
                forall|i: int|
                    0 <= i < row ==> (#[trigger] self.last_path@[i]) == pin_at(choices@, i),
            decreases row_count - row,
        {
            self.last_path[row] = current_pin;
            let goes_left = choices[row];
            proof {
                lemma_slot_le_row_total(old(self).counts@[row as int]@, current_pin as int);
            }
            self.record_choice(row, current_pin, goes_left);
            if !goes_left {
                current_pin = current_pin + 1;
            }
            row = row + 1;
        }
        self.total_paths = self.total_paths + 1;
        proof {
            assert forall|i: int| 0 <= i < row_count implies row_total(
                #[trigger] self.counts@[i]@,
            ) == self.total_paths by {
                let p = pin_at(choices@, i);
                lemma_pin_at_bounds(choices@, i);
                lemma_slot_le_row_total(old(self).counts@[i]@, p);
                lemma_row_total_update(
                    old(self).counts@[i]@,
                    p,
                    bumped(old(self).counts@[i]@[p], choices@[i]),
                );
            }
            assert forall|i: int, j: int|
                0 <= i < row_count && 0 <= j < old(self).counts@[i]@.len() implies {
                &&& (#[trigger] self.counts@[i]@[j]).times_left >= old(
                    self,
                ).counts@[i]@[j].times_left
                &&& self.counts@[i]@[j].times_right >= old(self).counts@[i]@[j].times_right
            } by {
                let p = pin_at(choices@, i);
                lemma_pin_at_bounds(choices@, i);
                lemma_slot_le_row_total(old(self).counts@[i]@, p);
            }
        }
    }

    /// Simulates one particle with fresh fair random choices. Whatever the
    /// draws, one path completes, the field stays conserved, and no counter
    /// decreases.
    pub fn simulate_path(&mut self)
        requires
            old(self).well_formed(),
            old(self).balanced(),
            old(self).total_paths < u64::MAX,
        ensures
            final(self).well_formed(),
            final(self).balanced(),
            final(self).row_count() == old(self).row_count(),
            final(self).total_paths == old(self).total_paths + 1,
            no_counter_decreased(*old(self), *final(self)),
    {
        let row_count = self.counts.len();
        let mut choices: Vec<bool> = Vec::new();
        let mut i: usize = 0;
        while i < row_count
            invariant
                i <= row_count,
                choices@.len() == i,
            decreases row_count - i,
        {
            choices.push(random_bool());
            i = i + 1;
        }
        self.simulate_path_with_choices(&choices);
    }

    /// Simulates `n` particles in sequence on the same field. Counters are
    /// commutative, so the aggregate state does not depend on the order;
    /// `last_path` afterwards reflects only the final particle.
    pub fn simulate_batch(&mut self, n: u32)
        requires
            old(self).well_formed(),
            old(self).balanced(),
            old(self).total_paths + n <= u64::MAX,
        ensures
            final(self).well_formed(),
            final(self).balanced(),
            final(self).row_count() == old(self).row_count(),
            final(self).total_paths == old(self).total_paths + n,
            no_counter_decreased(*old(self), *final(self)),
    {
        let mut k: u32 = 0;
        while k < n
            invariant
                k <= n,
                self.well_formed(),
                self.balanced(),
                self.row_count() == old(self).row_count(),
                old(self).total_paths + n <= u64::MAX,
                self.total_paths == old(self).total_paths + k,
                no_counter_decreased(*old(self), *self),
            decreases n - k,
        {
            let ghost before = *self;
            self.simulate_path();
            proof {
                lemma_no_counter_decreased_trans(*old(self), before, *self);
            }
            k = k + 1;
        }
    }
}

} // verus!
