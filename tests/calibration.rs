use celebrimbor::calibrate::{
    calibrate, count_matching, error_curve, exceeds_bound, first_crossing, Comparator,
    ObservedSets, Thresholds,
};
use celebrimbor::error::{CalibrationError, ThresholdKind};
use celebrimbor::label::{label_for, total_count, GeneLabel};
use celebrimbor::SCALE;

fn sets(core: Vec<usize>, not_core: Vec<usize>, rare: Vec<usize>, not_rare: Vec<usize>) -> ObservedSets {
    ObservedSets { core, not_core, rare, not_rare }
}

#[test]
fn count_matching_each_comparator() {
    let s = vec![0, 1, 1, 3, 5];
    assert_eq!(count_matching(&s, Comparator::Less, 1), 1);
    assert_eq!(count_matching(&s, Comparator::AtLeast, 1), 4);
    assert_eq!(count_matching(&s, Comparator::Greater, 1), 2);
    assert_eq!(count_matching(&s, Comparator::AtMost, 1), 3);
    assert_eq!(count_matching(&vec![], Comparator::AtMost, 1), 0);
}

#[test]
fn error_curve_values() {
    let s = vec![0, 2, 2, 3];
    assert_eq!(error_curve(&s, Comparator::Less, 3), vec![0, 1, 1, 3]);
    assert_eq!(error_curve(&s, Comparator::AtLeast, 3), vec![4, 3, 3, 1]);
    assert_eq!(error_curve(&s, Comparator::Greater, 3), vec![3, 3, 1, 0]);
    assert_eq!(error_curve(&s, Comparator::AtMost, 3), vec![1, 1, 3, 4]);
}

#[test]
fn curves_are_monotone() {
    let s = vec![4, 0, 7, 7, 2, 9, 1, 3, 3, 10];
    let n = 10;
    for (cmp, rising) in [
        (Comparator::Less, true),
        (Comparator::AtMost, true),
        (Comparator::Greater, false),
        (Comparator::AtLeast, false),
    ] {
        let c = error_curve(&s, cmp, n);
        for t in 1..=n {
            if rising {
                assert!(c[t - 1] <= c[t]);
            } else {
                assert!(c[t - 1] >= c[t]);
            }
        }
    }
}

#[test]
fn exceeds_bound_is_strict() {
    // 5 of 100 is exactly 0.05: not above it.
    let bound = SCALE / 20;
    assert!(!exceeds_bound(5, 100, bound));
    assert!(exceeds_bound(6, 100, bound));
    assert!(!exceeds_bound(0, 100, 0));
    assert!(exceeds_bound(1, 100, 0));
    assert!(!exceeds_bound(100, 100, SCALE));
}

#[test]
fn first_crossing_finds_first_index() {
    let bound = SCALE / 10;
    assert_eq!(first_crossing(&vec![0, 5, 10, 11, 50], 100, bound), Some(3));
    assert_eq!(first_crossing(&vec![0, 5, 10], 100, bound), None);
    assert_eq!(first_crossing(&vec![], 100, bound), None);
    assert_eq!(first_crossing(&vec![20], 100, bound), Some(0));
}

#[test]
fn calibrate_exact_thresholds() {
    // Ten draws per scenario, four genomes, bound 0.1.
    let core = vec![4, 4, 4, 4, 4, 4, 4, 4, 3, 2];
    let not_core = vec![0, 1, 2, 3, 0, 1, 2, 3, 0, 1];
    let rare = vec![0, 0, 0, 0, 0, 0, 0, 0, 1, 2];
    let not_rare = vec![4, 4, 3, 3, 2, 2, 1, 1, 0, 4];
    let s = sets(core, not_core, rare, not_rare);
    let c = calibrate(&s, 4, SCALE / 10).unwrap();
    // core: P(obs < t) = 0, 0, 0, 0.1, 0.2 -> first above 0.1 at t = 4.
    assert_eq!(c.thresholds.core, 4);
    // not-rare: P(obs <= t) = 0.1, 0.3, ... -> first above 0.1 at t = 1.
    assert_eq!(c.thresholds.rare, 1);
    assert!(c.thresholds.is_separated());
    assert_eq!(c.core_as_not_core, vec![0, 0, 0, 1, 2]);
    assert_eq!(c.not_core_as_core, vec![10, 7, 4, 2, 0]);
    assert_eq!(c.rare_as_not_rare, vec![2, 1, 0, 0, 0]);
    assert_eq!(c.not_rare_as_rare, vec![1, 3, 5, 7, 10]);
}

#[test]
fn calibrate_no_core_crossing() {
    // Every core draw is observed in all genomes; with bound 0 no threshold
    // in 0..=N sees a core gene below it.
    let n = 6;
    let s = sets(vec![n; 50], vec![0; 50], vec![0; 50], vec![0, 1, 2, 6, 6]);
    assert_eq!(
        calibrate(&s, n, 0).err(),
        Some(CalibrationError::ThresholdNotFound(ThresholdKind::Core))
    );
}

#[test]
fn calibrate_no_rare_crossing() {
    let s = sets(vec![0; 5], vec![0; 5], vec![0; 5], vec![9; 5]);
    assert_eq!(
        calibrate(&s, 3, SCALE / 20).err(),
        Some(CalibrationError::ThresholdNotFound(ThresholdKind::Rare))
    );
}

#[test]
fn calibrate_empty_samples() {
    let s = sets(vec![], vec![], vec![], vec![]);
    assert_eq!(
        calibrate(&s, 3, 0).err(),
        Some(CalibrationError::ThresholdNotFound(ThresholdKind::Rare))
    );
}

#[test]
fn thresholds_separation_flag() {
    assert!(Thresholds { core: 5, rare: 0 }.is_separated());
    assert!(!Thresholds { core: 2, rare: 2 }.is_separated());
    assert!(!Thresholds { core: 1, rare: 3 }.is_separated());
}

#[test]
fn labels_core_first() {
    let th = Thresholds { core: 8, rare: 2 };
    assert_eq!(label_for(8, &th), GeneLabel::Core);
    assert_eq!(label_for(10, &th), GeneLabel::Core);
    assert_eq!(label_for(2, &th), GeneLabel::Rare);
    assert_eq!(label_for(0, &th), GeneLabel::Rare);
    assert_eq!(label_for(5, &th), GeneLabel::Middle);
    // Overlapping thresholds resolve toward core.
    let odd = Thresholds { core: 3, rare: 5 };
    assert_eq!(label_for(4, &odd), GeneLabel::Core);
    assert_eq!(label_for(2, &odd), GeneLabel::Rare);
}

#[test]
fn label_text() {
    assert_eq!(GeneLabel::Core.as_str(), "core");
    assert_eq!(GeneLabel::Rare.as_str(), "rare");
    assert_eq!(GeneLabel::Middle.as_str(), "middle");
}

#[test]
fn total_count_sums_and_overflows() {
    assert_eq!(total_count(&vec![3, 4, 5]), Some(12));
    assert_eq!(total_count(&vec![]), Some(0));
    assert_eq!(total_count(&vec![usize::MAX, 0]), Some(usize::MAX));
    assert_eq!(total_count(&vec![usize::MAX, 1]), None);
}
