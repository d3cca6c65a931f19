//! Scoring a whole generation of candidate strategies, one independent
//! simulation each, on a pool of worker threads.

use vstd::prelude::*;
use rayon::iter::{IntoParallelRefIterator, ParallelIterator};
use crate::simulation::{
    lemma_possible_yield, pity_yield, possible_yield, simulate_strategy, yield_in_range,
    SimulationConfig,
};
use crate::strategy::{Strategy, StrategyModel};

verus! {

/// Whether `results` scores `candidates` slot by slot: as many results as
/// candidates, and each result a drop count that a full run of the
/// candidate in the same slot can give.
pub open spec fn scores(
    config: SimulationConfig,
    candidates: Seq<StrategyModel>,
    results: Seq<usize>,
) -> bool {
    &&& results.len() == candidates.len()
    &&& forall|i: int|
        0 <= i < results.len() ==> possible_yield(config, candidates[i], #[trigger] results[i] as nat)
}

/// The strategies of `candidates` as mathematical values, in order.
pub open spec fn models(candidates: Seq<Strategy>) -> Seq<StrategyModel> {
    Seq::new(candidates.len(), |i: int| candidates[i]@)
}

/// Maps [`simulate_strategy`] over `candidates` with rayon: `par_iter` on
/// the vector, `map` with the simulation as the closure, `collect` into a
/// vector. Rayon runs the closure once per item, on whichever worker is
/// free, and `collect` on an indexed iterator keeps the items' order, so
/// slot `i` of the result is what the simulation returned for candidate
/// `i`. The contract repeats, per slot, what `simulate_strategy` ensures.
#[verifier::external_body]
fn simulate_each(config: &SimulationConfig, candidates: &Vec<Strategy>) -> (results: Vec<usize>)
    ensures
        scores(*config, models(candidates@), results@),
{
    candidates.par_iter().map(|strategy| simulate_strategy(config, strategy)).collect()
}

/// Simulates every candidate once and returns the drop counts in the
/// candidates' order. The simulations run in parallel, each on the random
/// generator of its worker thread, so no random state is shared between
/// threads; which simulation finishes first has no bearing on the slots.
/// An empty enumeration gives an empty vector.
pub fn evaluate(config: &SimulationConfig, candidates: &Vec<Strategy>) -> (results: Vec<usize>)
    ensures
        scores(*config, models(candidates@), results@),
        forall|i: int| 0 <= i < results@.len() ==> yield_in_range(*config, results@[i] as nat),
        config.pity_only() ==> forall|i: int|
            0 <= i < results@.len() ==> results@[i] == pity_yield(
                config.max_counter_value as nat,
                config.steps_per_strategy as nat,
            ),
{
    let results = simulate_each(config, candidates);
    proof {
        assert forall|i: int| 0 <= i < results@.len() implies yield_in_range(
            *config,
            results@[i] as nat,
        ) && (config.pity_only() ==> results@[i] == pity_yield(
            config.max_counter_value as nat,
            config.steps_per_strategy as nat,
        )) by {
            lemma_possible_yield(*config, models(candidates@)[i], results@[i] as nat);
        }
    }
    results
}

/// The family "active while the counter is below `t`", one strategy for
/// each `t` from 0 up to and including `max`, in rising order.
pub fn inverse_threshold_family(max: usize) -> (family: Vec<Strategy>)
    requires
        max < usize::MAX,
    ensures
        family@.len() == max + 1,
        forall|t: int| 0 <= t <= max ==> family@[t]@ == StrategyModel::InverseThreshold(t as usize),
{
    let mut family: Vec<Strategy> = Vec::new();
    let mut t: usize = 0;
    while t <= max
        invariant
            max < usize::MAX,
            t <= max + 1,
            family@.len() == t,
            forall|j: int| 0 <= j < t ==> family@[j]@ == StrategyModel::InverseThreshold(j as usize),
        decreases max + 1 - t,
    {
        family.push(Strategy::InverseThreshold(t));
        t += 1;
    }
    family
}

/// The yield curve of the inverse-threshold family: slot `t` scores the
/// strategy "active while the counter is below `t`", for each `t` from 0
/// up to and including the pity ceiling.
pub fn sweep(config: &SimulationConfig) -> (results: Vec<usize>)
    requires
        config.max_counter_value < usize::MAX,
    ensures
        results@.len() == config.max_counter_value + 1,
        forall|t: int|
            0 <= t <= config.max_counter_value ==> possible_yield(
                *config,
                StrategyModel::InverseThreshold(t as usize),
                #[trigger] results@[t] as nat,
            ),
        forall|t: int|
            0 <= t <= config.max_counter_value ==> yield_in_range(*config, results@[t] as nat),
{
    let family = inverse_threshold_family(config.max_counter_value);
    evaluate(config, &family)
}

/// Pairs each result with the index of its slot.
pub fn indexed(results: &Vec<usize>) -> (pairs: Vec<(usize, usize)>)
    ensures
        pairs@.len() == results@.len(),
        forall|i: int| 0 <= i < results@.len() ==> pairs@[i] == (i as usize, results@[i]),
{
    let mut pairs: Vec<(usize, usize)> = Vec::new();
    let mut i: usize = 0;
    while i < results.len()
        invariant
            i <= results@.len(),
            pairs@.len() == i,
            forall|j: int| 0 <= j < i ==> pairs@[j] == (j as usize, results@[j]),
        decreases results@.len() - i,
    {
        pairs.push((i, results[i]));
        i += 1;
    }
    pairs
}

} // verus!
