//! Deterministic checks of the reservoir operations: exact bookkeeping,
//! degenerate denominators, clamping, and the merge/unmerge inverse.

use rs_voir::ratio::Ratio;
use rs_voir::{Reservoir, ReservoirBuilder};

fn ratio(num: u64, den: u64) -> Ratio {
    Ratio::new(num, den).unwrap()
}

#[test]
fn stream_one_sample_exact_bookkeeping() {
    // One sample with source density 1 and target value 2 into an empty
    // builder: history 1, weight sum 2, selected density 2, and the sample
    // is always accepted.
    let mut rng = rand::rng();
    let mut b = ReservoirBuilder::default();
    let accepted = b.stream(ratio(1, 1), ratio(2, 1), &mut rng);
    assert!(accepted);
    assert_eq!(b.history(), 1);
    assert!(b.weight_sum().eq_value(&ratio(2, 1)));
    assert!(b.selected_target_pdf().eq_value(&ratio(2, 1)));

    // finish with one unit of history: weight 2 / (1 * 2) = 1.
    let r = b.finish(1);
    assert_eq!(r.history(), 1);
    assert!(r.contribution_weight().eq_value(&ratio(1, 1)));
}

#[test]
fn finish_empty_builder_yields_zero_weight() {
    // history == 0 gives contribution weight exactly 0 for any max history.
    for max_history in [0u32, 1, 7, u32::MAX] {
        let b = ReservoirBuilder::default();
        let r = b.finish(max_history);
        assert_eq!(r.history(), 0);
        assert!(r.contribution_weight().is_zero());
        assert!(!r.has_weight());
    }
}

#[test]
fn finish_with_zero_density_yields_zero_weight() {
    let mut rng = rand::rng();
    let mut b = ReservoirBuilder::default();
    // Only zero-valued samples: the selected density stays zero.
    let accepted = b.stream(ratio(1, 1), ratio(0, 1), &mut rng);
    assert!(!accepted);
    let r = b.finish(8);
    assert!(r.contribution_weight().is_zero());
}

#[test]
fn clamp_history_is_noop_at_or_above_history() {
    let mut rng = rand::rng();
    let mut b = ReservoirBuilder::default();
    b.stream(ratio(1, 1), ratio(3, 1), &mut rng);
    b.stream(ratio(1, 1), ratio(1, 1), &mut rng);
    let before_ws = b.weight_sum();
    b.clamp_history(2);
    assert_eq!(b.history(), 2);
    assert!(b.weight_sum().eq_value(&before_ws));
    b.clamp_history(5);
    assert_eq!(b.history(), 2);
    assert!(b.weight_sum().eq_value(&before_ws));
}

#[test]
fn clamp_history_preserves_average_weight() {
    // history 4, weight sum 6: average 6/4.  Clamping to 2 scales the sum
    // by 2/4: new sum 3, and 3/2 == 6/4.
    let mut b = ReservoirBuilder {
        history: 4,
        weight_sum: ratio(6, 1),
        selected_target_pdf: ratio(1, 1),
    };
    b.clamp_history(2);
    assert_eq!(b.history(), 2);
    assert!(b.weight_sum().eq_value(&ratio(3, 1)));
}

#[test]
fn merge_adds_weight_and_history() {
    // Two builders, each one sample of weight 1: the merge holds weight 2
    // and history 2.
    let mut rng = rand::rng();
    let mut a = ReservoirBuilder::default();
    a.stream(ratio(1, 1), ratio(1, 1), &mut rng);
    let mut b = ReservoirBuilder::default();
    b.stream(ratio(1, 1), ratio(1, 1), &mut rng);
    a.merge(&b, &mut rng);
    assert_eq!(a.history(), 2);
    assert!(a.weight_sum().eq_value(&ratio(2, 1)));
}

#[test]
fn merge_then_unmerge_restores_bookkeeping() {
    let mut rng = rand::rng();
    let mut a = ReservoirBuilder {
        history: 3,
        weight_sum: ratio(5, 2),
        selected_target_pdf: ratio(7, 3),
    };
    let b = ReservoirBuilder {
        history: 2,
        weight_sum: ratio(4, 3),
        selected_target_pdf: ratio(1, 5),
    };
    a.merge(&b, &mut rng);
    assert_eq!(a.history(), 5);
    assert!(a.weight_sum().eq_value(&ratio(23, 6)));
    a.unmerge(&b);
    assert_eq!(a.history(), 3);
    assert!(a.weight_sum().eq_value(&ratio(5, 2)));
}

#[test]
fn merge_history_and_unmerge_history_touch_only_history() {
    let mut b = ReservoirBuilder {
        history: 3,
        weight_sum: ratio(1, 2),
        selected_target_pdf: ratio(1, 1),
    };
    let neighbor = Reservoir::from_sample(ratio(1, 2)).with_max_history(1);
    b.merge_history(&neighbor);
    assert_eq!(b.history(), 4);
    assert!(b.weight_sum().eq_value(&ratio(1, 2)));
    b.unmerge_history(&neighbor);
    assert_eq!(b.history(), 3);
    assert!(b.weight_sum().eq_value(&ratio(1, 2)));
}

#[test]
fn from_sample_is_reciprocal_of_density() {
    let r = Reservoir::from_sample(ratio(1, 4));
    assert_eq!(r.history(), 1);
    assert!(r.contribution_weight().eq_value(&ratio(4, 1)));
    assert!(r.has_weight());
}

#[test]
fn with_max_history_clamps_only_history() {
    let r = Reservoir::from_sample(ratio(1, 2));
    let mut rng = rand::rng();
    let mut b = ReservoirBuilder::default();
    for _ in 0..5 {
        b.stream(ratio(1, 1), ratio(1, 1), &mut rng);
    }
    let finished = b.finish(u32::MAX);
    assert_eq!(finished.history(), 5);
    let clamped = finished.with_max_history(3);
    assert_eq!(clamped.history(), 3);
    assert!(clamped
        .contribution_weight()
        .eq_value(&finished.contribution_weight()));
    assert_eq!(r.with_max_history(7).history(), 1);
}

#[test]
fn to_builder_reconstructs_weight_sum() {
    // contribution weight 3/2 with history 4 re-read under density 5:
    // weight sum (3/2) * 4 * 5 == 30.
    let mut b = ReservoirBuilder {
        history: 4,
        weight_sum: ratio(6, 1),
        selected_target_pdf: ratio(1, 1),
    };
    b.invalidate();
    assert!(b.weight_sum().is_zero());
    assert!(b.selected_target_pdf().is_zero());
    assert_eq!(b.history(), 4);

    let r = Reservoir {
        history: 4,
        contribution_weight: ratio(3, 2),
    };
    let rebuilt = r.to_builder(ratio(5, 1));
    assert_eq!(rebuilt.history(), 4);
    assert!(rebuilt.weight_sum().eq_value(&ratio(30, 1)));
    assert!(rebuilt.selected_target_pdf().eq_value(&ratio(5, 1)));
}

#[test]
fn collapse_averages_weight_into_one_sample() {
    let mut b = ReservoirBuilder {
        history: 4,
        weight_sum: ratio(6, 1),
        selected_target_pdf: ratio(2, 1),
    };
    b.collapse();
    assert_eq!(b.history(), 1);
    assert!(b.weight_sum().eq_value(&ratio(3, 2)));
}

#[test]
fn finish_with_history_decouples_normalization() {
    // weight sum 8, stored history 4, density 2, but normalize by 2:
    // weight 8 / (2 * 2) == 2, while the stored history stays 4.
    let b = ReservoirBuilder {
        history: 4,
        weight_sum: ratio(8, 1),
        selected_target_pdf: ratio(2, 1),
    };
    let r = b.finish_with_history(2);
    assert_eq!(r.history(), 4);
    assert!(r.contribution_weight().eq_value(&ratio(2, 1)));
}

#[test]
fn add_empty_sample_counts_history_only() {
    let mut b = ReservoirBuilder::default();
    b.add_empty_sample();
    b.add_empty_sample();
    assert_eq!(b.history(), 2);
    assert!(b.weight_sum().is_zero());
    let r = b.finish(8);
    assert!(r.contribution_weight().is_zero());
}

#[test]
fn overflowing_operations_are_refused() {
    let huge = Ratio {
        num: u64::MAX,
        den: 1,
    };
    let tiny = Ratio {
        num: 1,
        den: u64::MAX,
    };
    assert!(huge.try_add(&Ratio::whole(1)).is_none());
    assert!(huge.try_mul(&huge).is_none());
    assert!(tiny.try_div(&huge).is_none());

    // A builder whose rescaled weight sum cannot be represented: the weight
    // sum is the largest 64-bit prime, so scaling by 2/3 cannot reduce.
    let mut b = ReservoirBuilder {
        history: 3,
        weight_sum: Ratio {
            num: 18_446_744_073_709_551_557,
            den: 1,
        },
        selected_target_pdf: ratio(1, 1),
    };
    assert!(!b.try_clamp_history(2));
    assert_eq!(b.history(), 3);

    // History beyond u32 is refused by try_merge.
    let mut rng = rand::rng();
    let full = ReservoirBuilder {
        history: u32::MAX,
        weight_sum: ratio(1, 1),
        selected_target_pdf: ratio(1, 1),
    };
    let mut one = ReservoirBuilder::default();
    one.stream(ratio(1, 1), ratio(1, 1), &mut rng);
    let mut target = full;
    assert!(target.try_merge(&one, &mut rng).is_none());
    assert_eq!(target.history(), u32::MAX);
}

#[test]
fn ratio_construction_reduces_and_rejects_zero_denominator() {
    assert!(Ratio::new(2, 4).unwrap().eq_value(&ratio(1, 2)));
    assert!(Ratio::new(1, 0).is_none());
    let reduced = Ratio::new(6, 8).unwrap();
    assert_eq!(reduced.num, 3);
    assert_eq!(reduced.den, 4);
    assert!(Ratio::whole(3).eq_value(&ratio(3, 1)));
    assert!(Ratio::zero().is_zero());
    assert!(ratio(1, 3).lt(&ratio(1, 2)));
    assert!(ratio(2, 6).le(&ratio(1, 3)));
}
