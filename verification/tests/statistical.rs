//! Statistical checks: selection frequencies over many independent trials,
//! order independence of streaming, and an end-to-end multi-frame run with
//! temporal reuse against a fixed background.

use rs_voir::pipeline::{reuse, stream_candidates, Candidate};
use rs_voir::ratio::Ratio;
use rs_voir::ReservoirBuilder;

fn ratio(num: u64, den: u64) -> Ratio {
    Ratio::new(num, den).unwrap()
}

#[test]
fn selection_frequency_follows_target_values() {
    // Streaming weights 1, 2 and 3 (any order): sample i must be selected
    // with probability value_i / 6 over many independent trials.
    let orders: [[u64; 3]; 3] = [[1, 2, 3], [3, 2, 1], [2, 3, 1]];
    for order in orders {
        let trials = 30_000;
        let mut counts = [0u32; 4];
        let mut rng = rand::rng();
        for _ in 0..trials {
            let mut b = ReservoirBuilder::default();
            let mut selected = 0u64;
            for &value in order.iter() {
                if b.stream(ratio(1, 1), ratio(value, 1), &mut rng) {
                    selected = value;
                }
            }
            counts[selected as usize] += 1;
            // The bookkeeping is identical in every order.
            assert_eq!(b.history(), 3);
            assert!(b.weight_sum().eq_value(&ratio(6, 1)));
        }
        for value in 1..=3u64 {
            let expected = value as f64 / 6.0;
            let observed = counts[value as usize] as f64 / trials as f64;
            assert!(
                (observed - expected).abs() < 0.02,
                "value {}: observed {} expected {}",
                value,
                observed,
                expected
            );
        }
    }
}

#[test]
fn merge_of_equal_builders_is_a_coin_flip() {
    // Two builders each holding one sample of weight 1: after the merge
    // either sample is selected with probability one half.
    let trials = 20_000;
    let mut took_other = 0u32;
    let mut rng = rand::rng();
    for _ in 0..trials {
        let mut a = ReservoirBuilder::default();
        a.stream(ratio(1, 1), ratio(1, 1), &mut rng);
        let mut b = ReservoirBuilder::default();
        b.stream(ratio(1, 1), ratio(1, 1), &mut rng);
        if a.merge(&b, &mut rng) {
            took_other += 1;
        }
        assert_eq!(a.history(), 2);
        assert!(a.weight_sum().eq_value(&ratio(2, 1)));
    }
    let observed = took_other as f64 / trials as f64;
    assert!((observed - 0.5).abs() < 0.02, "observed {}", observed);
}

#[test]
fn temporal_accumulation_converges_to_background_value() {
    // A point whose only visible light is a background of value 2, with
    // half of all directions occluded.  Each frame streams four candidates
    // (two visible), collapses against reuse, merges the previous frame's
    // reservoir, and finishes.  The output value * contribution weight must
    // equal the background value scaled by the visible fraction — exactly,
    // every frame, since the estimator is deterministic here.
    let background = ratio(2, 1);
    let expected_output = ratio(1, 1);  // 2 * (2 visible of 4)
    let mut rng = rand::rng();
    let mut previous = rs_voir::Reservoir::default();
    for frame in 0..200 {
        let candidates = vec![
            Candidate { visible: true, source_pdf: ratio(1, 1), target_value: background },
            Candidate { visible: false, source_pdf: ratio(1, 1), target_value: Ratio::zero() },
            Candidate { visible: true, source_pdf: ratio(1, 1), target_value: background },
            Candidate { visible: false, source_pdf: ratio(1, 1), target_value: Ratio::zero() },
        ];
        let (mut b, _sel) = stream_candidates(&candidates, &mut rng).unwrap();
        b.clamp_history(4);
        b.collapse();
        // Temporal reuse: the previous frame's reservoir, re-evaluated at
        // the same point, where the background still has value 2.
        reuse(&mut b, &previous, background, 20, &mut rng).unwrap();
        let reservoir = b.finish(u32::MAX);
        previous = reservoir;

        if frame > 0 {
            // output = value * contribution weight = 2 * 1/2 = 1.
            let output = background
                .try_mul(&reservoir.contribution_weight())
                .unwrap();
            assert!(
                output.eq_value(&expected_output),
                "frame {}: {:?}",
                frame,
                output
            );
        }
    }
    assert!(previous.history() > 10);
}
