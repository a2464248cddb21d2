use galton::pin_field::{PinCounts, PinField};

fn row_sum(field: &PinField, row: usize) -> u128 {
    field.counts[row]
        .iter()
        .map(|c| c.times_left as u128 + c.times_right as u128)
        .sum()
}

#[test]
fn new_field_is_triangular_and_zero() {
    let field = PinField::new(16);
    assert_eq!(field.counts.len(), 16);
    for (i, row) in field.counts.iter().enumerate() {
        assert_eq!(row.len(), i + 1);
        for slot in row {
            assert_eq!(slot.times_left, 0);
            assert_eq!(slot.times_right, 0);
        }
    }
    assert_eq!(field.total_paths, 0);
    assert_eq!(field.last_path, vec![0; 16]);
}

#[test]
fn record_choice_increments_one_counter() {
    let mut field = PinField::new(4);
    field.record_choice(2, 1, true);
    field.record_choice(2, 1, false);
    field.record_choice(2, 1, false);
    assert_eq!(field.counts[2][1].times_left, 1);
    assert_eq!(field.counts[2][1].times_right, 2);
    assert_eq!(field.counts[2][0], PinCounts::default());
    assert_eq!(field.total_paths, 0);
}

#[test]
fn forced_single_particle_three_rows() {
    // One particle through three rows choosing left, right, left.
    let mut field = PinField::new(3);
    field.simulate_path_with_choices(&vec![true, false, true]);
    assert_eq!(field.last_path, vec![0, 0, 1]);
    assert_eq!(field.counts[0][0].times_left, 1);
    assert_eq!(field.counts[1][0].times_right, 1);
    assert_eq!(field.counts[2][1].times_left, 1);
    assert_eq!(field.total_paths, 1);
}

#[test]
fn forced_four_particles_two_rows_binomial_bins() {
    // Four particles over two rows: LL, LR, RL, RR.
    let mut field = PinField::new(2);
    field.simulate_path_with_choices(&vec![true, true]);
    field.simulate_path_with_choices(&vec![true, false]);
    field.simulate_path_with_choices(&vec![false, true]);
    field.simulate_path_with_choices(&vec![false, false]);
    assert_eq!(field.total_paths, 4);
    let h = field.histogram();
    assert_eq!(h.bins, vec![1, 2, 1]);
    assert_eq!(h.max, 2);
}

#[test]
fn conservation_after_random_batch() {
    let mut field = PinField::new(16);
    field.simulate_batch(100);
    assert_eq!(field.total_paths, 100);
    for row in 0..16 {
        assert_eq!(row_sum(&field, row), 100);
    }
}

#[test]
fn last_path_in_range_after_random_paths() {
    let mut field = PinField::new(16);
    for _ in 0..25 {
        field.simulate_path();
    }
    for (row, pin) in field.last_path.iter().enumerate() {
        assert!(*pin <= row);
    }
}

#[test]
fn counters_never_decrease_across_batches() {
    let mut field = PinField::new(8);
    field.simulate_batch(30);
    let before = field.counts.clone();
    let total_before = field.total_paths;
    field.simulate_batch(30);
    assert!(field.total_paths >= total_before);
    for (i, row) in before.iter().enumerate() {
        for (j, slot) in row.iter().enumerate() {
            assert!(field.counts[i][j].times_left >= slot.times_left);
            assert!(field.counts[i][j].times_right >= slot.times_right);
        }
    }
}

#[test]
fn reset_twice_equals_reset_once() {
    let mut field = PinField::new(5);
    field.simulate_batch(12);
    field.reset();
    let counts_once = field.counts.clone();
    let total_once = field.total_paths;
    let last_once = field.last_path.clone();
    field.reset();
    assert_eq!(field.counts, counts_once);
    assert_eq!(field.total_paths, total_once);
    assert_eq!(field.last_path, last_once);
    assert_eq!(field.total_paths, 0);
    for row in &field.counts {
        for slot in row {
            assert_eq!((slot.times_left, slot.times_right), (0, 0));
        }
    }
    assert_eq!(field.last_path, vec![0; 5]);
}

#[test]
fn histogram_conserves_total_paths() {
    let mut field = PinField::new(16);
    field.simulate_batch(200);
    let h = field.histogram();
    assert_eq!(h.bins.len(), 17);
    let sum: u128 = h.bins.iter().map(|b| *b as u128).sum();
    assert_eq!(sum, 200);
    for b in &h.bins {
        assert!(*b <= h.max);
    }
    assert!(h.bins.contains(&h.max));
}

#[test]
fn histogram_of_untouched_field_is_all_zero() {
    let field = PinField::new(4);
    let h = field.histogram();
    assert_eq!(h.bins, vec![0; 5]);
    assert_eq!(h.max, 0);
}

#[test]
fn segment_counts_and_denominator() {
    let mut field = PinField::new(3);
    assert_eq!(field.alpha_denominator(), 1);
    assert_eq!(field.segment_count(0, 0, 0), 0);
    field.simulate_path_with_choices(&vec![true, false, true]);
    assert_eq!(field.segment_count(0, 0, 0), 1);
    assert_eq!(field.segment_count(0, 0, 1), 0);
    assert_eq!(field.segment_count(1, 0, 1), 1);
    assert_eq!(field.segment_count(2, 1, 1), 1);
    assert_eq!(field.alpha_denominator(), 1);
    field.simulate_path_with_choices(&vec![true, true, true]);
    assert_eq!(field.segment_count(0, 0, 0), 2);
    assert_eq!(field.alpha_denominator(), 2);
}

#[test]
fn single_row_field_histogram() {
    let mut field = PinField::new(1);
    field.simulate_path_with_choices(&vec![true]);
    field.simulate_path_with_choices(&vec![false]);
    field.simulate_path_with_choices(&vec![false]);
    let h = field.histogram();
    assert_eq!(h.bins, vec![1, 2]);
    assert_eq!(h.max, 2);
}
