//! Deterministic checks of the per-point pipeline: candidate streaming,
//! temporal and spatial reuse, bias accounting, the smoothing step, and the
//! double-buffered store's snapshot discipline.

use rs_voir::pipeline::{
    reuse, smooth, squared_deviation, stream_candidates, unbiased_history, Candidate,
    NeighborAudit, ReusePolicy, SelectedSample,
};
use rs_voir::ratio::Ratio;
use rs_voir::store::{Pixel, PixelStore};
use rs_voir::{Reservoir, ReservoirBuilder};

fn ratio(num: u64, den: u64) -> Ratio {
    Ratio::new(num, den).unwrap()
}

fn candidate(visible: bool, source_pdf: Ratio, target_value: Ratio) -> Candidate {
    Candidate {
        visible,
        source_pdf,
        target_value,
    }
}

#[test]
fn stream_candidates_exact_bookkeeping() {
    // Four candidates, two occluded: weight sum 2/1 + 6/1 and four units of
    // history, whatever the draws selected.
    let mut rng = rand::rng();
    let candidates = vec![
        candidate(true, ratio(1, 1), ratio(2, 1)),
        candidate(false, ratio(1, 1), ratio(9, 1)),
        candidate(true, ratio(1, 2), ratio(3, 1)),
        candidate(false, ratio(1, 1), ratio(9, 1)),
    ];
    let (b, sel) = stream_candidates(&candidates, &mut rng).unwrap();
    assert_eq!(b.history(), 4);
    assert!(b.weight_sum().eq_value(&ratio(8, 1)));
    if let Some(j) = sel {
        assert!(candidates[j].visible);
        assert!(b.selected_target_pdf().eq_value(&candidates[j].target_value));
    }
}

#[test]
fn stream_candidates_all_occluded_selects_nothing() {
    let mut rng = rand::rng();
    let candidates = vec![
        candidate(false, ratio(1, 1), ratio(1, 1)),
        candidate(false, ratio(1, 1), ratio(1, 1)),
    ];
    let (b, sel) = stream_candidates(&candidates, &mut rng).unwrap();
    assert_eq!(b.history(), 2);
    assert!(b.weight_sum().is_zero());
    assert!(sel.is_none());
    assert!(b.selected_target_pdf().is_zero());
}

#[test]
fn reuse_merges_reconstructed_weight() {
    // A neighbor with weight 3/2 and history 4, clamped to 2, re-read under
    // density 5: it adds (3/2) * 2 * 5 == 15 weight and 2 history.
    let mut rng = rand::rng();
    let mut b = ReservoirBuilder {
        history: 1,
        weight_sum: ratio(2, 1),
        selected_target_pdf: ratio(2, 1),
    };
    let neighbor = Reservoir {
        history: 4,
        contribution_weight: ratio(3, 2),
    };
    let accepted = reuse(&mut b, &neighbor, ratio(5, 1), 2, &mut rng).unwrap();
    assert_eq!(b.history(), 3);
    assert!(b.weight_sum().eq_value(&ratio(17, 1)));
    if accepted {
        assert!(b.selected_target_pdf().eq_value(&ratio(5, 1)));
    } else {
        assert!(b.selected_target_pdf().eq_value(&ratio(2, 1)));
    }
}

#[test]
fn reuse_of_weightless_neighbor_merges_history_only() {
    let mut rng = rand::rng();
    let mut b = ReservoirBuilder {
        history: 1,
        weight_sum: ratio(2, 1),
        selected_target_pdf: ratio(2, 1),
    };
    let neighbor = Reservoir {
        history: 9,
        contribution_weight: Ratio::zero(),
    };
    let accepted = reuse(&mut b, &neighbor, ratio(5, 1), 4, &mut rng).unwrap();
    assert!(!accepted);
    assert_eq!(b.history(), 5);
    assert!(b.weight_sum().eq_value(&ratio(2, 1)));
    assert!(b.selected_target_pdf().eq_value(&ratio(2, 1)));
}

#[test]
fn reuse_with_zero_reevaluation_never_accepts() {
    // The neighbor's sample is worthless at the current point (occluded:
    // target value 0), so it adds history but can never win the selection.
    let mut rng = rand::rng();
    let mut b = ReservoirBuilder {
        history: 4,
        weight_sum: ratio(8, 1),
        selected_target_pdf: ratio(2, 1),
    };
    let neighbor = Reservoir {
        history: 10,
        contribution_weight: ratio(1, 1),
    };
    let accepted = reuse(&mut b, &neighbor, Ratio::zero(), 10, &mut rng).unwrap();
    assert!(!accepted);
    assert_eq!(b.history(), 14);
    assert!(b.weight_sum().eq_value(&ratio(8, 1)));
    assert!(b.selected_target_pdf().eq_value(&ratio(2, 1)));
}

#[test]
fn reuse_history_overflow_is_refused() {
    let mut rng = rand::rng();
    let mut b = ReservoirBuilder {
        history: u32::MAX,
        weight_sum: ratio(1, 1),
        selected_target_pdf: ratio(1, 1),
    };
    let neighbor = Reservoir {
        history: 1,
        contribution_weight: Ratio::zero(),
    };
    assert!(reuse(&mut b, &neighbor, ratio(1, 1), 1, &mut rng).is_none());
    assert_eq!(b.history(), u32::MAX);
}

#[test]
fn unbiased_history_counts_only_passing_neighbors() {
    let audits = vec![
        NeighborAudit {
            clamped_history: 10,
            produced_selection: false,
            visible_in_domain: false,
        },
        NeighborAudit {
            clamped_history: 7,
            produced_selection: false,
            visible_in_domain: true,
        },
        NeighborAudit {
            clamped_history: 3,
            produced_selection: true,
            visible_in_domain: false,
        },
    ];
    assert_eq!(unbiased_history(5, &audits), Some(15));
    assert_eq!(unbiased_history(5, &vec![]), Some(5));

    let too_much = vec![NeighborAudit {
        clamped_history: u32::MAX,
        produced_selection: true,
        visible_in_domain: false,
    }];
    assert_eq!(unbiased_history(1, &too_much), None);
}

#[test]
fn occluded_neighbor_does_not_inflate_the_unbiased_weight() {
    // An asymmetric occluder: the neighbor's sample is invisible from the
    // current point (re-evaluated value 0) and the winning sample is
    // invisible from the neighbor's domain.  With bias correction the
    // neighbor's history is excluded and the weight equals the
    // neighbor-free result; without it the weight can only shrink.
    let mut rng = rand::rng();
    let alone = ReservoirBuilder {
        history: 4,
        weight_sum: ratio(8, 1),
        selected_target_pdf: ratio(2, 1),
    };
    let own_history = alone.history();

    let mut merged = alone;
    let neighbor = Reservoir {
        history: 10,
        contribution_weight: ratio(1, 1),
    };
    let accepted = reuse(&mut merged, &neighbor, Ratio::zero(), 10, &mut rng).unwrap();
    assert!(!accepted);

    let audits = vec![NeighborAudit {
        clamped_history: 10,
        produced_selection: false,
        visible_in_domain: false,
    }];
    let corrected_history = unbiased_history(own_history, &audits).unwrap();
    assert_eq!(corrected_history, 4);

    let unbiased = merged.finish_with_history(corrected_history);
    let biased = merged.finish(u32::MAX);
    let alone_result = alone.finish(u32::MAX);
    // Corrected: exactly the neighbor-free weight 8 / (4 * 2) == 1.
    assert!(unbiased
        .contribution_weight()
        .eq_value(&alone_result.contribution_weight()));
    // Uncorrected: normalized by 14 instead of 4 — strictly smaller.
    assert!(biased
        .contribution_weight()
        .lt(&unbiased.contribution_weight()));
}

#[test]
fn smooth_moves_average_toward_value() {
    // avg 2, value 6, alpha 1/4: 2 * 3/4 + 6 * 1/4 == 3.
    let r = smooth(ratio(2, 1), ratio(6, 1), ratio(1, 4)).unwrap();
    assert!(r.eq_value(&ratio(3, 1)));
    // alpha 0 keeps the average; alpha 1 takes the value.
    assert!(smooth(ratio(2, 1), ratio(6, 1), Ratio::zero())
        .unwrap()
        .eq_value(&ratio(2, 1)));
    assert!(smooth(ratio(2, 1), ratio(6, 1), ratio(1, 1))
        .unwrap()
        .eq_value(&ratio(6, 1)));
}

#[test]
fn squared_deviation_is_symmetric_and_exact() {
    let a = squared_deviation(ratio(7, 2), ratio(2, 1)).unwrap();
    assert!(a.eq_value(&ratio(9, 4)));
    let b = squared_deviation(ratio(2, 1), ratio(7, 2)).unwrap();
    assert!(b.eq_value(&ratio(9, 4)));
    assert!(squared_deviation(ratio(5, 1), ratio(5, 1))
        .unwrap()
        .is_zero());
}

#[test]
fn policy_decisions_match_their_variants() {
    let precise = ReusePolicy::Precise { unbias: true };
    assert!(precise.gates_candidates());
    assert!(precise.gates_spatial_reuse());
    assert!(precise.counts_unbiased_history());
    assert!(!precise.rechecks_initial_selection());
    assert!(!precise.rechecks_final_selection());

    let plain = ReusePolicy::Precise { unbias: false };
    assert!(!plain.counts_unbiased_history());

    let lean = ReusePolicy::LeanAndMean {
        initial_visibility: true,
    };
    assert!(!lean.gates_candidates());
    assert!(!lean.gates_spatial_reuse());
    assert!(lean.rechecks_initial_selection());
    assert!(lean.rechecks_final_selection());
    assert!(!lean.counts_unbiased_history());
}

#[test]
fn background_samples_are_shift_invariant() {
    let background = SelectedSample {
        direction_key: 3,
        distance: None,
    };
    assert!(background.is_shift_invariant());
    let finite = SelectedSample {
        direction_key: 3,
        distance: Some(ratio(5, 2)),
    };
    assert!(!finite.is_shift_invariant());
}

#[test]
fn store_keeps_the_previous_frame_frozen() {
    let make = |h: u32| Pixel {
        reservoir: Reservoir {
            history: h,
            contribution_weight: Ratio::zero(),
        },
        sample: SelectedSample {
            direction_key: h as u64,
            distance: None,
        },
    };
    let initial = vec![make(1), make(2), make(3)];
    let scratch = vec![make(0), make(0), make(0)];
    let mut store = PixelStore::from_buffers(initial, scratch);
    assert_eq!(store.len(), 3);

    // Writing point 1 must not disturb what this frame reads anywhere.
    store.commit(1, make(77));
    assert_eq!(store.previous(0).reservoir.history(), 1);
    assert_eq!(store.previous(1).reservoir.history(), 2);
    assert_eq!(store.previous(2).reservoir.history(), 3);

    // After the frame ends, the written state becomes the snapshot.
    store.commit(0, make(55));
    store.commit(2, make(99));
    store.end_frame();
    assert_eq!(store.previous(0).reservoir.history(), 55);
    assert_eq!(store.previous(1).reservoir.history(), 77);
    assert_eq!(store.previous(2).reservoir.history(), 99);
}
