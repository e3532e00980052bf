use graphrag::units::{clamp_unit, is_unit, merge_weight, MergeRule, UNIT};

#[test]
fn unit_interval_has_closed_ends() {
    assert!(is_unit(0));
    assert!(is_unit(UNIT));
    assert!(is_unit(800_000));
    assert!(!is_unit(-1));
    assert!(!is_unit(UNIT + 1));
    assert!(!is_unit(1_500_000));
}

#[test]
fn clamp_brings_values_into_the_unit_interval() {
    assert_eq!(clamp_unit(-5), 0);
    assert_eq!(clamp_unit(0), 0);
    assert_eq!(clamp_unit(800_000), 800_000);
    assert_eq!(clamp_unit(UNIT), UNIT);
    assert_eq!(clamp_unit(1_500_000), UNIT);
    assert_eq!(clamp_unit(i64::MIN), 0);
    assert_eq!(clamp_unit(i64::MAX), UNIT);
}

#[test]
fn a_new_edge_stores_the_clamped_weight_under_every_rule() {
    for rule in [MergeRule::Replace, MergeRule::Max, MergeRule::Sum, MergeRule::Mean] {
        assert_eq!(merge_weight(rule, None, 800_000), 800_000);
        assert_eq!(merge_weight(rule, None, 1_500_000), UNIT);
        assert_eq!(merge_weight(rule, None, -3), 0);
    }
}

#[test]
fn replace_overwrites_the_stored_weight() {
    assert_eq!(merge_weight(MergeRule::Replace, Some(900_000), 200_000), 200_000);
    assert_eq!(merge_weight(MergeRule::Replace, Some(100_000), 2_000_000), UNIT);
}

#[test]
fn max_keeps_the_larger_weight() {
    assert_eq!(merge_weight(MergeRule::Max, Some(900_000), 200_000), 900_000);
    assert_eq!(merge_weight(MergeRule::Max, Some(100_000), 200_000), 200_000);
    assert_eq!(merge_weight(MergeRule::Max, Some(5_000_000), 200_000), UNIT);
}

#[test]
fn sum_saturates_at_one() {
    assert_eq!(merge_weight(MergeRule::Sum, Some(300_000), 200_000), 500_000);
    assert_eq!(merge_weight(MergeRule::Sum, Some(900_000), 200_000), UNIT);
    assert_eq!(merge_weight(MergeRule::Sum, Some(-7), 200_000), 200_000);
}

#[test]
fn mean_rounds_down() {
    assert_eq!(merge_weight(MergeRule::Mean, Some(300_000), 200_000), 250_000);
    assert_eq!(merge_weight(MergeRule::Mean, Some(1), 2), 1);
    assert_eq!(merge_weight(MergeRule::Mean, Some(0), 1), 0);
}

#[test]
fn writing_twice_changes_nothing_under_replace_and_max() {
    for rule in [MergeRule::Replace, MergeRule::Max] {
        for stored in [None, Some(0), Some(400_000), Some(950_000)] {
            let once = merge_weight(rule, stored, 800_000);
            assert_eq!(merge_weight(rule, Some(once), 800_000), once);
        }
    }
}

#[test]
fn max_and_sum_never_lower_a_weight() {
    for rule in [MergeRule::Max, MergeRule::Sum] {
        for stored in [0, 1, 400_000, 950_000, UNIT] {
            for incoming in [-1, 0, 300_000, UNIT, 3 * UNIT] {
                assert!(merge_weight(rule, Some(stored), incoming) >= stored);
            }
        }
    }
}
