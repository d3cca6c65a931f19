use pity_drops::strategy::Strategy;

#[test]
fn test1() {
    let strategy = Strategy::XorInverseThresholds(vec![541, 950]);
    let table = strategy.dump(1000);
    assert_eq!(table.len(), 1001);
    assert_eq!(table[0], (0, true));
    assert_eq!(table[541], (541, true));
    assert_eq!(table[542], (542, false));
    assert_eq!(table[950], (950, false));
    assert_eq!(table[951], (951, true));
    assert_eq!(table[1000], (1000, true));
}

#[test]
fn threshold_is_active_above_its_value() {
    let strategy = Strategy::Threshold(5);
    assert!(!strategy.decide(3));
    assert!(!strategy.decide(5));
    assert!(strategy.decide(6));
    assert!(strategy.decide(usize::MAX));
}

#[test]
fn inverse_threshold_is_active_below_its_value() {
    let strategy = Strategy::InverseThreshold(5);
    assert!(strategy.decide(0));
    assert!(strategy.decide(4));
    assert!(!strategy.decide(5));
    assert!(!strategy.decide(6));
    assert!(!Strategy::InverseThreshold(0).decide(0));
}

#[test]
fn xor_thresholds_counts_thresholds_above_the_counter() {
    let strategy = Strategy::XorThresholds(vec![3, 7]);
    assert!(strategy.decide(0));
    assert!(strategy.decide(2));
    assert!(!strategy.decide(3));
    assert!(!strategy.decide(5));
    assert!(!strategy.decide(6));
    assert!(strategy.decide(7));
    assert!(strategy.decide(100));
}

#[test]
fn xor_inverse_thresholds_counts_thresholds_below_the_counter() {
    let strategy = Strategy::XorInverseThresholds(vec![3, 7]);
    assert!(strategy.decide(0));
    assert!(strategy.decide(3));
    assert!(!strategy.decide(4));
    assert!(!strategy.decide(7));
    assert!(strategy.decide(8));
}

#[test]
fn xor_strategies_without_thresholds_are_always_active() {
    assert!(Strategy::XorThresholds(vec![]).decide(0));
    assert!(Strategy::XorThresholds(vec![]).decide(17));
    assert!(Strategy::XorInverseThresholds(vec![]).decide(0));
    assert!(Strategy::XorInverseThresholds(vec![]).decide(17));
}

#[test]
fn a_threshold_listed_twice_cancels_itself() {
    let doubled = Strategy::XorInverseThresholds(vec![4, 9, 4]);
    let single = Strategy::XorInverseThresholds(vec![9]);
    for counter in 0..20 {
        assert_eq!(doubled.decide(counter), single.decide(counter));
    }
    let doubled_above = Strategy::XorThresholds(vec![4, 4]);
    for counter in 0..10 {
        assert!(doubled_above.decide(counter));
    }
}

#[test]
fn the_order_of_thresholds_does_not_matter() {
    let one = Strategy::XorThresholds(vec![2, 11, 6]);
    let other = Strategy::XorThresholds(vec![6, 2, 11]);
    for counter in 0..15 {
        assert_eq!(one.decide(counter), other.decide(counter));
    }
}

#[test]
fn dump_lists_every_counter_with_its_decision() {
    let strategy = Strategy::Threshold(2);
    assert_eq!(
        strategy.dump(4),
        vec![(0, false), (1, false), (2, false), (3, true), (4, true)]
    );
    assert_eq!(Strategy::InverseThreshold(1).dump(0), vec![(0, true)]);
}

#[test]
fn dump_agrees_with_decide_and_can_be_repeated() {
    let strategy = Strategy::XorThresholds(vec![3, 7]);
    let first = strategy.dump(12);
    let second = strategy.dump(12);
    assert_eq!(first, second);
    assert_eq!(first.len(), 13);
    for (i, entry) in first.iter().enumerate() {
        assert_eq!(*entry, (i, strategy.decide(i)));
    }
}
