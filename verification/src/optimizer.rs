//! The greedy search: round by round, try every threshold as one more
//! toggle, commit the best, and stop when the sentinel wins.

use vstd::prelude::*;
use crate::evaluator::{evaluate, models, scores};
use crate::simulation::{pity_yield, SimulationConfig};
use crate::strategy::{below, count_below, Strategy, StrategyModel};

verus! {

/// The thresholds after toggling `t`: without `t` if it was a member, with
/// `t` added at the end if it was not.
pub open spec fn toggled(thresholds: Seq<usize>, t: usize) -> Seq<usize> {
    if thresholds.contains(t) {
        thresholds.remove(thresholds.index_of(t))
    } else {
        thresholds.push(t)
    }
}

/// The candidate that tries the threshold `t` on top of `thresholds`.
pub open spec fn candidate(thresholds: Seq<usize>, t: usize) -> StrategyModel {
    StrategyModel::XorInverseThresholds(thresholds.push(t))
}

/// The candidates of one round: one for each threshold from 0 up to and
/// including `max`, in rising order.
pub open spec fn generation(thresholds: Seq<usize>, max: usize) -> Seq<StrategyModel> {
    Seq::new((max + 1) as nat, |t: int| candidate(thresholds, t as usize))
}

/// Whether every threshold lies below `max`.
pub open spec fn all_below(thresholds: Seq<usize>, max: usize) -> bool {
    forall|t: usize| thresholds.contains(t) ==> t < max
}

/// Whether `best` is the winning slot of `results`: it holds the largest
/// value, and no later slot holds a value as large.
pub open spec fn is_best(results: Seq<usize>, best: int) -> bool {
    &&& 0 <= best < results.len()
    &&& forall|i: int| 0 <= i < results.len() ==> results[i] <= results[best]
    &&& forall|i: int| best < i < results.len() ==> results[i] < results[best]
}

/// Removing one entry of a sequence without repeats removes its value from
/// the members and leaves the sequence without repeats.
proof fn lemma_remove_member(s: Seq<usize>, i: int)
    requires
        s.no_duplicates(),
        0 <= i < s.len(),
    ensures
        s.remove(i).no_duplicates(),
        !s.remove(i).contains(s[i]),
        s.remove(i).to_set() == s.to_set().remove(s[i]),
{
    let r = s.remove(i);
    assert forall|x: usize| r.contains(x) <==> (s.contains(x) && x != s[i]) by {
        if r.contains(x) {
            let j = choose|j: int| 0 <= j < r.len() && r[j] == x;
            let k = if j < i { j } else { j + 1 };
            assert(s[k] == x);
        }
        if s.contains(x) && x != s[i] {
            let k = choose|k: int| 0 <= k < s.len() && s[k] == x;
            let j = if k < i { k } else { k - 1 };
            assert(r[j] == x);
        }
    }
    assert(r.to_set() =~= s.to_set().remove(s[i]));
}

/// Toggling keeps a set a set, and changes its members by exactly `t`.
pub proof fn lemma_toggled_members(thresholds: Seq<usize>, t: usize)
    requires
        thresholds.no_duplicates(),
    ensures
        toggled(thresholds, t).no_duplicates(),
        thresholds.contains(t) ==> toggled(thresholds, t).to_set() == thresholds.to_set().remove(t),
        !thresholds.contains(t) ==> toggled(thresholds, t).to_set() == thresholds.to_set().insert(t),
{
    if thresholds.contains(t) {
        lemma_remove_member(thresholds, thresholds.index_of(t));
    } else {
        thresholds.lemma_push_to_set_commute(t);
    }
}

/// Toggling a threshold below `max` keeps every threshold below `max`.
pub proof fn lemma_toggled_below(thresholds: Seq<usize>, t: usize, max: usize)
    requires
        thresholds.no_duplicates(),
        all_below(thresholds, max),
        t < max,
    ensures
        all_below(toggled(thresholds, t), max),
{
    lemma_toggled_members(thresholds, t);
    assert forall|x: usize| toggled(thresholds, t).contains(x) implies x < max by {
        assert(toggled(thresholds, t).to_set().contains(x));
        assert(thresholds.to_set().contains(x) || x == t);
    }
}

/// Toggling the same threshold twice gives back the set of thresholds that
/// was there before.
pub proof fn lemma_toggle_twice(thresholds: Seq<usize>, t: usize)
    requires
        thresholds.no_duplicates(),
    ensures
        toggled(toggled(thresholds, t), t).to_set() == thresholds.to_set(),
{
    let once = toggled(thresholds, t);
    lemma_toggled_members(thresholds, t);
    lemma_toggled_members(once, t);
    if thresholds.contains(t) {
        lemma_remove_member(thresholds, thresholds.index_of(t));
        assert(once.to_set().insert(t) =~= thresholds.to_set());
    } else {
        assert(once[thresholds.len() as int] == t);
        assert(once.to_set().remove(t) =~= thresholds.to_set());
    }
}

/// Taking one entry out of a sequence of thresholds lowers the count of
/// thresholds below `counter` by one if that entry was below, and leaves
/// it otherwise.
proof fn lemma_count_below_remove(s: Seq<usize>, i: int, counter: int)
    requires
        0 <= i < s.len(),
    ensures
        count_below(s, counter) == count_below(s.remove(i), counter) + if counter > s[i] {
            1int
        } else {
            0int
        },
    decreases s.len(),
{
    let front = s.drop_last();
    assert(s =~= front.push(s.last()));
    front.lemma_filter_len_push(below(counter), s.last());
    if i == s.len() - 1 {
        assert(s.remove(i) =~= front);
    } else {
        lemma_count_below_remove(front, i, counter);
        assert(s.remove(i) =~= front.remove(i).push(s.last()));
        front.remove(i).lemma_filter_len_push(below(counter), s.last());
    }
}

/// The candidate for `t` decides every counter value as the thresholds
/// would after toggling `t`: a threshold that is tried a second time
/// cancels itself.
pub proof fn lemma_candidate_decides_as_toggled(thresholds: Seq<usize>, t: usize, counter: int)
    ensures
        candidate(thresholds, t).active(counter) == StrategyModel::XorInverseThresholds(
            toggled(thresholds, t),
        ).active(counter),
{
    if thresholds.contains(t) {
        thresholds.lemma_filter_len_push(below(counter), t);
        lemma_count_below_remove(thresholds, thresholds.index_of(t), counter);
    }
}

/// A result vector has one winning slot only.
pub proof fn lemma_best_is_unique(results: Seq<usize>, a: int, b: int)
    requires
        is_best(results, a),
        is_best(results, b),
    ensures
        a == b,
{
    if a < b {
        assert(results[b] < results[a]);
        assert(results[a] <= results[b]);
    } else if b < a {
        assert(results[a] < results[b]);
        assert(results[b] <= results[a]);
    }
}

/// Where every slot holds the same value, the last slot wins.
pub proof fn lemma_flat_results_select_last(results: Seq<usize>)
    requires
        results.len() > 0,
        forall|i: int, j: int| 0 <= i < results.len() && 0 <= j < results.len() ==> results[i] == results[j],
    ensures
        is_best(results, results.len() - 1),
{
}

/// Selects the winning slot of `results`: the largest value, and among
/// equals the highest index.
pub fn select_best(results: &Vec<usize>) -> (best: usize)
    requires
        results@.len() > 0,
    ensures
        is_best(results@, best as int),
{
    let mut best: usize = 0;
    let mut i: usize = 1;
    while i < results.len()
        invariant
            1 <= i <= results@.len(),
            is_best(results@.take(i as int), best as int),
        decreases results@.len() - i,
    {
        if results[i] >= results[best] {
            best = i;
        }
        i += 1;
    }
    assert(results@.take(i as int) =~= results@);
    best
}

/// The thresholds that the search has committed: a set, kept in the order
/// in which its members were added.
#[derive(Debug)]
pub struct ThresholdSet {
    values: Vec<usize>,
}

impl View for ThresholdSet {
    type V = Seq<usize>;

    closed spec fn view(&self) -> Seq<usize> {
        self.values@
    }
}

impl ThresholdSet {
    /// Whether no threshold occurs twice.
    pub open spec fn wf(&self) -> bool {
        self@.no_duplicates()
    }

    /// The empty set.
    pub fn new() -> (set: ThresholdSet)
        ensures
            set@ == Seq::<usize>::empty(),
            set.wf(),
    {
        ThresholdSet { values: Vec::new() }
    }

    /// Where `t` stands among the members, if it is one.
    fn position(&self, t: usize) -> (found: Option<usize>)
        ensures
            match found {
                Some(i) => i < self@.len() && self@[i as int] == t,
                None => !self@.contains(t),
            },
    {
        let mut i: usize = 0;
        while i < self.values.len()
            invariant
                i <= self@.len(),
                forall|j: int| 0 <= j < i ==> self@[j] != t,
            decreases self@.len() - i,
        {
            if self.values[i] == t {
                return Some(i);
            }
            i += 1;
        }
        None
    }

    /// Toggles `t`: removes it if it is a member, adds it if it is not.
    pub fn toggle(&mut self, t: usize)
        requires
            old(self).wf(),
        ensures
            final(self).wf(),
            final(self)@ == toggled(old(self)@, t),
    {
        proof {
            lemma_toggled_members(self@, t);
        }
        match self.position(t) {
            Some(i) => {
                self.values.remove(i);
            },
            None => {
                self.values.push(t);
            },
        }
    }

    /// Whether `t` is a member.
    pub fn contains(&self, t: usize) -> (found: bool)
        ensures
            found == self@.contains(t),
    {
        self.position(t).is_some()
    }

    /// The number of members.
    pub fn len(&self) -> (n: usize)
        requires
            self.wf(),
        ensures
            n == self@.len(),
            n == self@.to_set().len(),
    {
        proof {
            self@.unique_seq_to_set();
        }
        self.values.len()
    }

    /// The members, in the order in which they were added.
    pub fn members(&self) -> (members: Vec<usize>)
        ensures
            members@ == self@,
    {
        self.values.clone()
    }

    /// The strategy that the members stand for: active while an even
    /// number of them lie below the counter.
    pub fn strategy(&self) -> (strategy: Strategy)
        ensures
            strategy@ == StrategyModel::XorInverseThresholds(self@),
    {
        Strategy::XorInverseThresholds(self.values.clone())
    }

    /// The candidates of the next round: slot `t` tries the threshold `t`
    /// on top of the members, for each `t` from 0 up to and including
    /// `max`.
    pub fn candidates(&self, max: usize) -> (candidates: Vec<Strategy>)
        requires
            max < usize::MAX,
        ensures
            models(candidates@) == generation(self@, max),
    {
        let mut candidates: Vec<Strategy> = Vec::new();
        let mut t: usize = 0;
        while t <= max
            invariant
                max < usize::MAX,
                t <= max + 1,
                candidates@.len() == t,
                forall|j: int| 0 <= j < t ==> candidates@[j]@ == candidate(self@, j as usize),
            decreases max + 1 - t,
        {
            let mut thresholds: Vec<usize> = self.values.clone();
            thresholds.push(t);
            candidates.push(Strategy::XorInverseThresholds(thresholds));
            t += 1;
        }
        assert(models(candidates@) =~= generation(self@, max));
        candidates
    }
}

/// What a round of the search decided.
#[derive(Clone, Copy, Debug, PartialEq, Eq, Structural)]
pub enum Decision {
    /// The sentinel, the last slot, won: the search is over.
    Converged,
    /// Another slot won and its threshold was toggled.
    Toggled(usize),
}

/// The state of the search between rounds.
#[derive(Debug)]
pub struct Optimizer {
    /// The thresholds committed so far.
    pub thresholds: ThresholdSet,
    /// How many rounds have toggled a threshold.
    pub round: usize,
}

impl Optimizer {
    /// The state before the first round: no threshold, round 0.
    pub fn new() -> (optimizer: Optimizer)
        ensures
            optimizer.thresholds@ == Seq::<usize>::empty(),
            optimizer.thresholds.wf(),
            optimizer.round == 0,
    {
        Optimizer { thresholds: ThresholdSet::new(), round: 0 }
    }

    /// Takes the results of a round and decides. If the last slot wins,
    /// the search has converged and the state stays as it is. Otherwise
    /// the winning slot's threshold is toggled and the round is counted.
    pub fn observe(&mut self, results: &Vec<usize>) -> (decision: Decision)
        requires
            old(self).thresholds.wf(),
            old(self).round < usize::MAX,
            results@.len() > 0,
        ensures
            final(self).thresholds.wf(),
            decision == Decision::Converged <==> is_best(results@, results@.len() - 1),
            match decision {
                Decision::Converged => {
                    &&& is_best(results@, results@.len() - 1)
                    &&& final(self).thresholds@ == old(self).thresholds@
                    &&& final(self).round == old(self).round
                },
                Decision::Toggled(best) => {
                    &&& is_best(results@, best as int)
                    &&& best < results@.len() - 1
                    &&& final(self).thresholds@ == toggled(old(self).thresholds@, best)
                    &&& final(self).round == old(self).round + 1
                },
            },
    {
        let best: usize = select_best(results);
        proof {
            if is_best(results@, results@.len() - 1) {
                lemma_best_is_unique(results@, best as int, results@.len() - 1);
            }
        }
        if best == results.len() - 1 {
            Decision::Converged
        } else {
            self.thresholds.toggle(best);
            self.round = self.round + 1;
            Decision::Toggled(best)
        }
    }
}

/// How a search ended.
#[derive(Debug)]
pub enum SearchOutcome {
    /// The sentinel won a round. `thresholds` is the strategy found,
    /// `results` scores the candidates of that last round, which are not
    /// the strategy found itself, and `round` counts the rounds that
    /// toggled a threshold before it.
    Converged { thresholds: ThresholdSet, results: Vec<usize>, round: usize },
    /// The round limit was used up, each round toggling a threshold.
    /// `thresholds` is what the search had committed by then.
    LimitReached { thresholds: ThresholdSet },
}

/// Searches for the thresholds with the highest yield. Each round scores
/// the candidates `0..=max_counter_value` on top of the thresholds
/// committed so far and toggles the winner, until the sentinel
/// `max_counter_value` wins or `round_limit` rounds have toggled one.
pub fn search(config: &SimulationConfig, round_limit: usize) -> (outcome: SearchOutcome)
    requires
        config.max_counter_value < usize::MAX,
    ensures
        match outcome {
            SearchOutcome::Converged { thresholds, results, round } => {
                &&& thresholds.wf()
                &&& all_below(thresholds@, config.max_counter_value)
                &&& thresholds@.len() <= round < round_limit
                &&& scores(*config, generation(thresholds@, config.max_counter_value), results@)
                &&& is_best(results@, config.max_counter_value as int)
                &&& config.pity_only() ==> {
                    &&& round == 0
                    &&& forall|i: int|
                        0 <= i < results@.len() ==> results@[i] == pity_yield(
                            config.max_counter_value as nat,
                            config.steps_per_strategy as nat,
                        )
                }
            },
            SearchOutcome::LimitReached { thresholds } => {
                &&& thresholds.wf()
                &&& all_below(thresholds@, config.max_counter_value)
                &&& thresholds@.len() <= round_limit
                &&& config.pity_only() ==> round_limit == 0
            },
        },
{
    let mut optimizer = Optimizer::new();
    while optimizer.round < round_limit
        invariant
            config.max_counter_value < usize::MAX,
            optimizer.thresholds.wf(),
            all_below(optimizer.thresholds@, config.max_counter_value),
            optimizer.thresholds@.len() <= optimizer.round <= round_limit,
            config.pity_only() ==> optimizer.round == 0,
        decreases round_limit - optimizer.round,
    {
        let candidates = optimizer.thresholds.candidates(config.max_counter_value);
        let results = evaluate(config, &candidates);
        let ghost before = optimizer.thresholds@;
        let decision = optimizer.observe(&results);
        match decision {
            Decision::Converged => {
                return SearchOutcome::Converged {
                    thresholds: optimizer.thresholds,
                    results,
                    round: optimizer.round,
                };
            },
            Decision::Toggled(best) => {
                proof {
                    lemma_toggled_below(before, best, config.max_counter_value);
                    if config.pity_only() {
                        lemma_flat_results_select_last(results@);
                        lemma_best_is_unique(results@, best as int, results@.len() - 1);
                    }
                }
            },
        }
    }
    SearchOutcome::LimitReached { thresholds: optimizer.thresholds }
}

} // verus!
