//! Decision rules that map the pity counter to the counter-active flag.

use vstd::prelude::*;

verus! {

/// The predicate "this threshold lies strictly above `counter`".
pub open spec fn above(counter: int) -> spec_fn(usize) -> bool {
    |t: usize| counter < t
}

/// The predicate "this threshold lies strictly below `counter`".
pub open spec fn below(counter: int) -> spec_fn(usize) -> bool {
    |t: usize| counter > t
}

/// How many entries of `thresholds` lie strictly above `counter`, repeated
/// entries counted as often as they occur.
pub open spec fn count_above(thresholds: Seq<usize>, counter: int) -> nat {
    thresholds.filter(above(counter)).len()
}

/// How many entries of `thresholds` lie strictly below `counter`, repeated
/// entries counted as often as they occur.
pub open spec fn count_below(thresholds: Seq<usize>, counter: int) -> nat {
    thresholds.filter(below(counter)).len()
}

/// What a [`Strategy`] is, as a mathematical value.
pub enum StrategyModel {
    Threshold(usize),
    InverseThreshold(usize),
    XorThresholds(Seq<usize>),
    XorInverseThresholds(Seq<usize>),
}

impl StrategyModel {
    /// Whether the strategy marks the counter value `counter` as active.
    pub open spec fn active(self, counter: int) -> bool {
        match self {
            StrategyModel::Threshold(t) => counter > t,
            StrategyModel::InverseThreshold(t) => counter < t,
            StrategyModel::XorThresholds(ts) => count_above(ts, counter) % 2 == 0,
            StrategyModel::XorInverseThresholds(ts) => count_below(ts, counter) % 2 == 0,
        }
    }
}

/// A rule that decides, from the pity counter alone, whether the counter
/// boosts the drop chance of the next kill.
#[derive(Debug)]
pub enum Strategy {
    /// Active while the counter is above the threshold.
    Threshold(usize),
    /// Active while the counter is below the threshold.
    InverseThreshold(usize),
    /// Active while an even number of the thresholds lie above the counter.
    XorThresholds(Vec<usize>),
    /// Active while an even number of the thresholds lie below the counter.
    XorInverseThresholds(Vec<usize>),
}

impl View for Strategy {
    type V = StrategyModel;

    open spec fn view(&self) -> StrategyModel {
        match self {
            Strategy::Threshold(t) => StrategyModel::Threshold(*t),
            Strategy::InverseThreshold(t) => StrategyModel::InverseThreshold(*t),
            Strategy::XorThresholds(ts) => StrategyModel::XorThresholds(ts@),
            Strategy::XorInverseThresholds(ts) => StrategyModel::XorInverseThresholds(ts@),
        }
    }
}

/// Counts the entries of `thresholds` that lie strictly above `counter`.
fn thresholds_above(thresholds: &Vec<usize>, counter: usize) -> (n: usize)
    ensures
        n == count_above(thresholds@, counter as int),
{
    let mut n: usize = 0;
    let mut i: usize = 0;
    while i < thresholds.len()
        invariant
            i <= thresholds.len(),
            n <= i,
            n == count_above(thresholds@.take(i as int), counter as int),
        decreases thresholds.len() - i,
    {
        proof {
            let seen = thresholds@.take(i as int);
            assert(thresholds@.take(i + 1) =~= seen.push(thresholds@[i as int]));
            seen.lemma_filter_len_push(above(counter as int), thresholds@[i as int]);
        }
        if counter < thresholds[i] {
            n += 1;
        }
        i += 1;
    }
    assert(thresholds@.take(i as int) =~= thresholds@);
    n
}

/// Counts the entries of `thresholds` that lie strictly below `counter`.
fn thresholds_below(thresholds: &Vec<usize>, counter: usize) -> (n: usize)
    ensures
        n == count_below(thresholds@, counter as int),
{
    let mut n: usize = 0;
    let mut i: usize = 0;
    while i < thresholds.len()
        invariant
            i <= thresholds.len(),
            n <= i,
            n == count_below(thresholds@.take(i as int), counter as int),
        decreases thresholds.len() - i,
    {
        proof {
            let seen = thresholds@.take(i as int);
            assert(thresholds@.take(i + 1) =~= seen.push(thresholds@[i as int]));
            seen.lemma_filter_len_push(below(counter as int), thresholds@[i as int]);
        }
        if counter > thresholds[i] {
            n += 1;
        }
        i += 1;
    }
    assert(thresholds@.take(i as int) =~= thresholds@);
    n
}

impl Strategy {
    /// Decides whether the counter value `counter` is active.
    pub fn decide(&self, counter: usize) -> (active: bool)
        ensures
            active == self@.active(counter as int),
    {
        match self {
            Strategy::Threshold(t) => counter > *t,
            Strategy::InverseThreshold(t) => counter < *t,
            Strategy::XorThresholds(ts) => thresholds_above(ts, counter) % 2 == 0,
            Strategy::XorInverseThresholds(ts) => thresholds_below(ts, counter) % 2 == 0,
        }
    }

    /// The decision for every counter value from 0 up to and including
    /// `max`, each paired with its counter value, in rising order.
    pub fn dump(&self, max: usize) -> (table: Vec<(usize, bool)>)
        requires
            max < usize::MAX,
        ensures
            table@.len() == max + 1,
            forall|i: int| 0 <= i <= max ==> table@[i] == (i as usize, self@.active(i)),
    {
        let mut table: Vec<(usize, bool)> = Vec::new();
        let mut i: usize = 0;
        while i <= max
            invariant
                max < usize::MAX,
                i <= max + 1,
                table@.len() == i,
                forall|j: int| 0 <= j < i ==> table@[j] == (j as usize, self@.active(j)),
            decreases max + 1 - i,
        {
            let active = self.decide(i);
            table.push((i, active));
            i += 1;
        }
        table
    }
}

} // verus!
