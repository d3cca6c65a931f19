use pity_drops::evaluator::{evaluate, indexed, inverse_threshold_family, sweep};
use pity_drops::simulation::{SimulationConfig, ROLL_RANGE};
use pity_drops::strategy::Strategy;

fn decided_config(max: usize, steps: usize) -> SimulationConfig {
    // inactive kills always drop by roll, active kills never do
    SimulationConfig {
        base_drop_rate: ROLL_RANGE as i64,
        counter_multiplier: -(ROLL_RANGE as i64),
        max_counter_value: max,
        steps_per_strategy: steps,
    }
}

#[test]
fn evaluate_keeps_the_order_of_the_candidates() {
    let config = decided_config(4, 40);
    let candidates = vec![
        Strategy::InverseThreshold(usize::MAX),
        Strategy::InverseThreshold(0),
        Strategy::InverseThreshold(1),
        Strategy::Threshold(0),
    ];
    assert_eq!(evaluate(&config, &candidates), vec![10, 40, 30, 20]);
}

#[test]
fn evaluate_of_no_candidates_is_empty() {
    let config = decided_config(4, 40);
    assert_eq!(evaluate(&config, &Vec::new()), Vec::<usize>::new());
}

#[test]
fn evaluate_on_many_candidates_fills_every_slot() {
    let config = SimulationConfig {
        base_drop_rate: 0,
        counter_multiplier: 0,
        max_counter_value: 3,
        steps_per_strategy: 10,
    };
    let candidates = inverse_threshold_family(499);
    assert_eq!(evaluate(&config, &candidates), vec![3; 500]);
}

#[test]
fn evaluate_results_are_bounded_by_the_steps() {
    let config = SimulationConfig {
        base_drop_rate: (ROLL_RANGE / 10) as i64,
        counter_multiplier: (ROLL_RANGE / 100) as i64,
        max_counter_value: 20,
        steps_per_strategy: 200,
    };
    let candidates = inverse_threshold_family(20);
    let results = evaluate(&config, &candidates);
    assert_eq!(results.len(), 21);
    for drops in results.iter() {
        assert!(*drops <= 200);
        assert!(*drops >= 10);
    }
}

#[test]
fn the_inverse_threshold_family_rises_from_zero() {
    let family = inverse_threshold_family(3);
    assert_eq!(family.len(), 4);
    for (t, strategy) in family.iter().enumerate() {
        for counter in 0..6 {
            assert_eq!(strategy.decide(counter), counter < t);
        }
    }
    assert_eq!(inverse_threshold_family(0).len(), 1);
}

#[test]
fn sweep_scores_the_inverse_threshold_family() {
    // slot t is inactive from counter t on, and inactive kills always drop
    let config = decided_config(4, 40);
    assert_eq!(sweep(&config), vec![40, 30, 20, 10, 10]);
}

#[test]
fn sweep_has_one_slot_per_counter_value() {
    let config = SimulationConfig {
        base_drop_rate: (ROLL_RANGE / 1000) as i64,
        counter_multiplier: (ROLL_RANGE / 500_000) as i64,
        max_counter_value: 30,
        steps_per_strategy: 1000,
    };
    let results = sweep(&config);
    assert_eq!(results.len(), 31);
    for drops in results.iter() {
        assert!(*drops <= 1000);
    }
}

#[test]
fn indexed_pairs_each_result_with_its_slot() {
    assert_eq!(indexed(&vec![7, 0, 9]), vec![(0, 7), (1, 0), (2, 9)]);
    assert_eq!(indexed(&Vec::new()), Vec::<(usize, usize)>::new());
}
