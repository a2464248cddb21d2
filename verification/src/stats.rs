//! Presentation-ready values derived from a `PinField` without mutating it:
//! per-segment traversal counts and the landing-bin histogram.

use vstd::prelude::*;

use crate::pin_field::{
    lemma_two_slots_le_row_total, row_total, slot_total, PinCounts, PinField,
};

verus! {

/// The slots of the bottom pin row.
pub open spec fn last_row(f: PinField) -> Seq<PinCounts> {
    f.counts@[f.row_count() - 1]@
}

/// The particles that landed in bin `i`: those that went right off the slot
/// left of the bin plus those that went left off the slot right of it.
pub open spec fn bin_at(f: PinField, i: int) -> int {
    (if i >= 1 {
        last_row(f)[i - 1].times_right as int
    } else {
        0
    }) + (if i < f.row_count() {
        last_row(f)[i].times_left as int
    } else {
        0
    })
}

/// The particles that landed in the first `k` bins.
pub open spec fn bins_total(f: PinField, k: int) -> int
    decreases k,
{
    if k <= 0 {
        0
    } else {
        bins_total(f, k - 1) + bin_at(f, k - 1)
    }
}

/// The traversals recorded in the first `k` slots of a row.
pub open spec fn row_total_prefix(r: Seq<PinCounts>, k: int) -> int
    decreases k,
{
    if k <= 0 {
        0
    } else {
        row_total_prefix(r, k - 1) + slot_total(r[k - 1])
    }
}

proof fn lemma_row_total_prefix_agree(a: Seq<PinCounts>, b: Seq<PinCounts>, k: int)
    requires
        forall|i: int| 0 <= i < k ==> a[i] == b[i],
    ensures
        row_total_prefix(a, k) == row_total_prefix(b, k),
    decreases k,
{
    if k > 0 {
        lemma_row_total_prefix_agree(a, b, k - 1);
    }
}

proof fn lemma_row_total_prefix_full(r: Seq<PinCounts>)
    ensures
        row_total_prefix(r, r.len() as int) == row_total(r),
    decreases r.len(),
{
    if r.len() > 0 {
        lemma_row_total_prefix_full(r.drop_last());
        lemma_row_total_prefix_agree(r.drop_last(), r, r.len() - 1);
    }
}

proof fn lemma_bins_total_prefix(f: PinField, k: int)
    requires
        f.well_formed(),
        f.row_count() >= 1,
        1 <= k <= f.row_count(),
    ensures
        bins_total(f, k) == row_total_prefix(last_row(f), k - 1) + last_row(f)[k
            - 1].times_left,
    decreases k,
{
    if k == 1 {
        assert(bins_total(f, 1) == bin_at(f, 0)) by {
            reveal_with_fuel(bins_total, 2);
        }
    } else {
        lemma_bins_total_prefix(f, k - 1);
    }
}

/// Every particle lands in exactly one of the `row_count + 1` bins: over a
/// conserved field the bins sum to `total_paths`.
pub proof fn lemma_histogram_conservation(f: PinField)
    requires
        f.well_formed(),
        f.balanced(),
        f.row_count() >= 1,
    ensures
        bins_total(f, f.row_count() as int + 1) == f.total_paths,
{
    let rc = f.row_count() as int;
    lemma_bins_total_prefix(f, rc);
    lemma_row_total_prefix_full(last_row(f));
}

/// The bottom-row landing bins, with their maximum for normalization.
pub struct Histogram {
    pub bins: Vec<u64>,
    pub max: u64,
}

impl PinField {
    /// The `row_count + 1` landing-bin totals of the bottom row, in order,
    /// together with the largest bin value.
    pub fn histogram(&self) -> (h: Histogram)
        requires
            self.well_formed(),
            self.balanced(),
            self.row_count() >= 1,
        ensures
            h.bins@.len() == self.row_count() + 1,
            forall|i: int| 0 <= i < h.bins@.len() ==> (#[trigger] h.bins@[i]) == bin_at(*self, i),
            forall|i: int| 0 <= i < h.bins@.len() ==> (#[trigger] h.bins@[i]) <= h.max,
            exists|i: int| 0 <= i < h.bins@.len() && (#[trigger] h.bins@[i]) == h.max,
    {
        let row_count = self.counts.len();
        let mut bins: Vec<u64> = Vec::new();
        let mut max: u64 = 0;
        let ghost mut max_idx: int = 0;
        let mut i: usize = 0;
        while i < row_count
            invariant
                self.well_formed(),
                self.balanced(),
                row_count == self.row_count(),
                row_count >= 1,
                i <= row_count,
                bins@.len() == i,
                forall|k: int| 0 <= k < i ==> (#[trigger] bins@[k]) == bin_at(*self, k),
                forall|k: int| 0 <= k < i ==> (#[trigger] bins@[k]) <= max,
                i == 0 ==> max == 0,
                i >= 1 ==> 0 <= max_idx < i && bins@[max_idx] == max,
            decreases row_count - i,
        {
            let ghost last = last_row(*self);
            proof {
                assert(last.len() == row_count);
                assert(row_total(last) == self.total_paths);
                if i >= 1 {
                    lemma_two_slots_le_row_total(last, i - 1, i as int);
                }
            }
            let r = &self.counts[row_count - 1];
            let mut p: u64 = 0;
            if i >= 1 {
                p = r[i - 1].times_right;
            }
            p = p + r[i].times_left;
            if p > max || i == 0 {
                max = p;
                proof {
                    max_idx = i as int;
                }
            }
            bins.push(p);
            i = i + 1;
        }
        let r = &self.counts[row_count - 1];
        let p = r[row_count - 1].times_right;
        if p > max {
            max = p;
            proof {
                max_idx = row_count as int;
            }
        }
        bins.push(p);
        let h = Histogram { bins, max };
        proof {
            assert(h.bins@[max_idx] == h.max);
        }
        h
    }

    /// The traversal counter of the edge from pin `pin_a` of `row` down to
    /// pin `pin_b` of the next row: the slot's left counter for the left
    /// edge, its right counter for the right edge. The renderer divides it
    /// by `alpha_denominator` for the edge's visual intensity.
    pub fn segment_count(&self, row: usize, pin_a: usize, pin_b: usize) -> (count: u64)
        requires
            self.well_formed(),
            row < self.row_count(),
            pin_a <= row,
            pin_b == pin_a || pin_b == pin_a + 1,
        ensures
            count == if pin_b == pin_a {
                self.counts@[row as int]@[pin_a as int].times_left
            } else {
                self.counts@[row as int]@[pin_a as int].times_right
            },
    {
        let slot = self.counts[row][pin_a];
        if pin_b == pin_a {
            slot.times_left
        } else {
            slot.times_right
        }
    }

    /// The denominator for traversal frequencies: `total_paths`, guarded so
    /// that an untouched field yields frequency zero instead of a division
    /// by zero.
    pub fn alpha_denominator(&self) -> (d: u64)
        ensures
            d == if self.total_paths == 0 {
                1u64
            } else {
                self.total_paths
            },
    {
        if self.total_paths == 0 {
            1
        } else {
            self.total_paths
        }
    }
}

} // verus!
