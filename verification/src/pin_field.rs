//! The triangular grid of per-pin left/right counters: pure data, with
//! construction, a single-counter increment, and reset.

use vstd::prelude::*;

verus! {

/// The two traversal counters of one pin slot: how many particles left this
/// pin to the left and how many to the right since the last reset.
#[derive(Debug, Default, Clone, Copy, PartialEq, Eq, Structural)]
pub struct PinCounts {
    pub times_left: u64,
    pub times_right: u64,
}

/// The traversals recorded at one slot.
pub open spec fn slot_total(c: PinCounts) -> int {
    c.times_left + c.times_right
}

/// The traversals recorded over a whole row of slots.
pub open spec fn row_total(r: Seq<PinCounts>) -> int
    decreases r.len(),
{
    if r.len() == 0 {
        0
    } else {
        row_total(r.drop_last()) + slot_total(r.last())
    }
}

/// One slot with the counter of the chosen side incremented. Meaningful only
/// while the incremented counter is below `u64::MAX`; every caller works
/// under that bound.
pub open spec fn bumped(c: PinCounts, went_left: bool) -> PinCounts {
    if went_left {
        PinCounts { times_left: (c.times_left + 1) as u64, times_right: c.times_right }
    } else {
        PinCounts { times_left: c.times_left, times_right: (c.times_right + 1) as u64 }
    }
}

/// A row's total never goes below zero: it sums unsigned counters.
pub proof fn lemma_row_total_nonneg(r: Seq<PinCounts>)
    ensures
        row_total(r) >= 0,
    decreases r.len(),
{
    if r.len() > 0 {
        lemma_row_total_nonneg(r.drop_last());
    }
}

/// Replacing one slot moves the row's total by the difference of the slot
/// totals.
pub proof fn lemma_row_total_update(r: Seq<PinCounts>, j: int, v: PinCounts)
    requires
        0 <= j < r.len(),
    ensures
        row_total(r.update(j, v)) == row_total(r) - slot_total(r[j]) + slot_total(v),
    decreases r.len(),
{
    let u = r.update(j, v);
    if j == r.len() - 1 {
        assert(u.drop_last() =~= r.drop_last());
    } else {
        assert(u.drop_last() =~= r.drop_last().update(j, v));
        lemma_row_total_update(r.drop_last(), j, v);
    }
}

/// No slot holds more than its whole row.
pub proof fn lemma_slot_le_row_total(r: Seq<PinCounts>, j: int)
    requires
        0 <= j < r.len(),
    ensures
        slot_total(r[j]) <= row_total(r),
    decreases r.len(),
{
    if j == r.len() - 1 {
        lemma_row_total_nonneg(r.drop_last());
    } else {
        lemma_slot_le_row_total(r.drop_last(), j);
    }
}

/// Two distinct slots together hold no more than their whole row.
pub proof fn lemma_two_slots_le_row_total(r: Seq<PinCounts>, j: int, k: int)
    requires
        0 <= j < k < r.len(),
    ensures
        slot_total(r[j]) + slot_total(r[k]) <= row_total(r),
    decreases r.len(),
{
    if k == r.len() - 1 {
        lemma_slot_le_row_total(r.drop_last(), j);
    } else {
        lemma_two_slots_le_row_total(r.drop_last(), j, k);
    }
}

/// The triangular pin field: row `i` holds `i + 1` slots. `total_paths`
/// counts fully simulated particles since the last reset, and `last_path`
/// holds, for each row, the pin at which the most recent particle made its
/// choice.
pub struct PinField {
    pub counts: Vec<Vec<PinCounts>>,
    pub total_paths: u64,
    pub last_path: Vec<usize>,
}

impl PinField {
    /// The number of pin rows.
    pub open spec fn row_count(self) -> nat {
        self.counts@.len()
    }

    /// Shape invariant: triangular layout, one `last_path` entry per row,
    /// each entry no larger than its row index.
    pub open spec fn well_formed(self) -> bool {
        &&& self.last_path@.len() == self.counts@.len()
        &&& forall|i: int|
            0 <= i < self.counts@.len() ==> (#[trigger] self.counts@[i]@).len() == i + 1
        &&& forall|i: int|
            0 <= i < self.last_path@.len() ==> (#[trigger] self.last_path@[i]) <= i
    }

    /// Conservation: every row has recorded exactly one choice per completed
    /// particle. Holds between completed simulation steps, not mid-path.
    pub open spec fn balanced(self) -> bool {
        forall|i: int|
            0 <= i < self.counts@.len() ==> row_total(#[trigger] self.counts@[i]@)
                == self.total_paths
    }

    /// All counters, the path counter and the trajectory record are zero.
    pub open spec fn is_zero_state(self) -> bool {
        &&& self.total_paths == 0
        &&& forall|i: int, j: int|
            0 <= i < self.counts@.len() && 0 <= j < self.counts@[i]@.len()
                ==> (#[trigger] self.counts@[i]@[j])
                    == (PinCounts { times_left: 0, times_right: 0 })
        &&& forall|i: int|
            0 <= i < self.last_path@.len() ==> (#[trigger] self.last_path@[i]) == 0
    }

    /// The counters as a sequence of rows of slots.
    pub open spec fn grid(self) -> Seq<Seq<PinCounts>> {
        self.counts@.map_values(|v: Vec<PinCounts>| v@)
    }

    /// A field with `row_count` rows of triangular shape, all counters zero,
    /// no completed paths, and an all-zero trajectory record.
    pub fn new(row_count: usize) -> (field: PinField)
        ensures
            field.row_count() == row_count,
            field.well_formed(),
            field.balanced(),
            field.is_zero_state(),
    {
        let mut counts: Vec<Vec<PinCounts>> = Vec::new();
        let mut last_path: Vec<usize> = Vec::new();
        let mut i: usize = 0;
        while i < row_count
            invariant
                i <= row_count,
                counts@.len() == i,
                last_path@.len() == i,
                forall|r: int| 0 <= r < i ==> (#[trigger] counts@[r]@).len() == r + 1,
                forall|r: int, j: int|
                    0 <= r < i && 0 <= j < counts@[r]@.len()
                        ==> (#[trigger] counts@[r]@[j])
                            == (PinCounts { times_left: 0, times_right: 0 }),
                forall|r: int| 0 <= r < i ==> (#[trigger] last_path@[r]) == 0,
                forall|r: int| 0 <= r < i ==> row_total(#[trigger] counts@[r]@) == 0,
            decreases row_count - i,
        {
            let row = zero_row(i + 1);
            counts.push(row);
            last_path.push(0);
            i = i + 1;
        }
        PinField { counts, total_paths: 0, last_path }
    }

    /// Increments the counter of the chosen side on the slot at
    /// `(row, pin_index)`. An out-of-range index is a caller bug, ruled out
    /// here rather than handled.
    pub fn record_choice(&mut self, row: usize, pin_index: usize, went_left: bool)
        requires
            old(self).well_formed(),
            row < old(self).row_count(),
            pin_index <= row,
            slot_total(old(self).counts@[row as int]@[pin_index as int]) < u64::MAX,
        ensures
            final(self).well_formed(),
            final(self).row_count() == old(self).row_count(),
            final(self).total_paths == old(self).total_paths,
            final(self).last_path@ == old(self).last_path@,
            final(self).counts@[row as int]@ == old(self).counts@[row as int]@.update(
                pin_index as int,
                bumped(old(self).counts@[row as int]@[pin_index as int], went_left),
            ),
            forall|i: int|
                0 <= i < old(self).counts@.len() && i != row
                    ==> (#[trigger] final(self).counts@[i]) == old(self).counts@[i],
            row_total(final(self).counts@[row as int]@) == row_total(
                old(self).counts@[row as int]@,
            ) + 1,
            no_counter_decreased(*old(self), *final(self)),
    {
        let slot = self.counts[row][pin_index];
        let new_slot = if went_left {
            PinCounts { times_left: slot.times_left + 1, times_right: slot.times_right }
        } else {
            PinCounts { times_left: slot.times_left, times_right: slot.times_right + 1 }
        };
        self.counts[row][pin_index] = new_slot;
        proof {
            lemma_row_total_update(
                old(self).counts@[row as int]@,
                pin_index as int,
                bumped(old(self).counts@[row as int]@[pin_index as int], went_left),
            );
        }
    }

    /// Returns the field to the startup state: all counters, `total_paths`
    /// and the trajectory record zero, with the row count unchanged.
    pub fn reset(&mut self)
        ensures
            final(self).row_count() == old(self).row_count(),
            final(self).well_formed(),
            final(self).balanced(),
            final(self).is_zero_state(),
    {
        let row_count = self.counts.len();
        *self = PinField::new(row_count);
    }
}

/// No per-pin counter and not the path counter is smaller in `b` than in `a`;
/// the grid keeps its shape. Every operation but `reset` maintains this from
/// its pre-state to its post-state.
pub open spec fn no_counter_decreased(a: PinField, b: PinField) -> bool {
    &&& b.counts@.len() == a.counts@.len()
    &&& forall|i: int|
        0 <= i < a.counts@.len() ==> (#[trigger] b.counts@[i]@).len() == a.counts@[i]@.len()
    &&& forall|i: int, j: int|
        0 <= i < a.counts@.len() && 0 <= j < a.counts@[i]@.len() ==> {
            &&& (#[trigger] b.counts@[i]@[j]).times_left >= a.counts@[i]@[j].times_left
            &&& b.counts@[i]@[j].times_right >= a.counts@[i]@[j].times_right
        }
    &&& b.total_paths >= a.total_paths
}

/// Counter growth composes across consecutive operations.
pub proof fn lemma_no_counter_decreased_trans(a: PinField, b: PinField, c: PinField)
    requires
        no_counter_decreased(a, b),
        no_counter_decreased(b, c),
    ensures
        no_counter_decreased(a, c),
{
}

/// Two well-formed fields in the zero state with the same row count are the
/// same state: a second `reset` directly after a first one therefore yields
/// exactly the state the first one produced.
pub proof fn lemma_reset_idempotent(a: PinField, b: PinField)
    requires
        a.well_formed(),
        b.well_formed(),
        a.is_zero_state(),
        b.is_zero_state(),
        a.row_count() == b.row_count(),
    ensures
        a.grid() =~~= b.grid(),
        a.total_paths == b.total_paths,
        a.last_path@ =~= b.last_path@,
{
    assert forall|i: int| 0 <= i < a.counts@.len() implies #[trigger] a.grid()[i] =~= b.grid()[i]
    by {
        assert(a.grid()[i] == a.counts@[i]@);
        assert(b.grid()[i] == b.counts@[i]@);
    }
}

/// A row of `len` all-zero slots.
fn zero_row(len: usize) -> (row: Vec<PinCounts>)
    ensures
        row@.len() == len,
        forall|j: int|
            0 <= j < len ==> (#[trigger] row@[j]) == (PinCounts { times_left: 0, times_right: 0 }),
        row_total(row@) == 0,
{
    let mut row: Vec<PinCounts> = Vec::new();
    let mut j: usize = 0;
    while j < len
        invariant
            j <= len,
            row@.len() == j,
            forall|k: int|
                0 <= k < j ==> (#[trigger] row@[k])
                    == (PinCounts { times_left: 0, times_right: 0 }),
            row_total(row@) == 0,
        decreases len - j,
    {
        let ghost prev = row@;
        row.push(PinCounts { times_left: 0, times_right: 0 });
        proof {
            assert(row@.drop_last() =~= prev);
        }
        j = j + 1;
    }
    row
}

} // verus!
