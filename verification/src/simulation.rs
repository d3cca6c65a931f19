//! The simulation engine: one strategy, one long run of kills, one drop count.

use vstd::prelude::*;
use vstd::arithmetic::div_mod::{
    lemma_fundamental_div_mod, lemma_fundamental_div_mod_converse, lemma_mod_pos_bound,
    lemma_multiply_divide_lt,
};
use vstd::arithmetic::mul::{
    lemma_mul_is_commutative, lemma_mul_is_distributive_add,
    lemma_mul_is_distributive_add_other_way,
};
use crate::random::draw_roll;
use crate::strategy::{Strategy, StrategyModel};

verus! {

/// The number of values a roll can take. A roll is a uniform integer in
/// `0..ROLL_RANGE`, and a drop chance `c` stands for the probability
/// `c / ROLL_RANGE`: the roll drops an item exactly when it is below `c`.
pub const ROLL_RANGE: u64 = 9007199254740992;

/// The parameters shared by every simulation of a sweep.
#[derive(Clone, Copy, Debug)]
pub struct SimulationConfig {
    /// Drop chance of every kill, as a multiple of `1 / ROLL_RANGE`.
    pub base_drop_rate: i64,
    /// Drop chance added per unit of the counter while the strategy marks
    /// the counter active, as a multiple of `1 / ROLL_RANGE`.
    pub counter_multiplier: i64,
    /// The pity ceiling: a kill that brings the counter up to it drops an
    /// item for certain and resets the counter.
    pub max_counter_value: usize,
    /// How many kills one simulation runs.
    pub steps_per_strategy: usize,
}

impl SimulationConfig {
    /// The drop chance of a kill that brought the counter to `counter`.
    /// It is not clamped: a chance of zero or less never drops, one of
    /// `ROLL_RANGE` or more always does.
    pub open spec fn drop_chance_spec(self, counter: int, active: bool) -> int {
        if active {
            self.base_drop_rate + self.counter_multiplier * counter
        } else {
            self.base_drop_rate as int
        }
    }

    /// Whether no roll can ever drop an item, so that only pity does.
    pub open spec fn pity_only(self) -> bool {
        self.base_drop_rate == 0 && self.counter_multiplier == 0
    }

    /// Computes the drop chance of a kill that brought the counter to
    /// `counter`.
    pub fn drop_chance(&self, counter: usize, active: bool) -> (chance: i128)
        ensures
            chance == self.drop_chance_spec(counter as int, active),
    {
        if active {
            let rate: i128 = self.counter_multiplier as i128;
            let count: i128 = counter as i128;
            assert(-0x8000_0000_0000_0000 * 0xffff_ffff_ffff_ffff <= rate * count
                <= 0x7fff_ffff_ffff_ffff * 0xffff_ffff_ffff_ffff) by (nonlinear_arith)
                requires
                    -0x8000_0000_0000_0000 <= rate <= 0x7fff_ffff_ffff_ffff,
                    0 <= count <= 0xffff_ffff_ffff_ffff,
            ;
            self.base_drop_rate as i128 + rate * count
        } else {
            self.base_drop_rate as i128
        }
    }
}

/// The state of a run as a mathematical value: the pity counter and the
/// items dropped so far.
pub struct RunModel {
    pub counter: nat,
    pub drops: nat,
}

/// The state before the first kill.
pub open spec fn initial() -> RunModel {
    RunModel { counter: 0, drops: 0 }
}

/// Whether the next kill reaches the pity ceiling, so that it drops an item
/// without a roll.
pub open spec fn pity_due(config: SimulationConfig, state: RunModel) -> bool {
    state.counter + 1 >= config.max_counter_value
}

/// The state after one kill.
///
/// The strategy is asked about the counter as it stood before the kill.
/// The kill raises the counter. At the pity ceiling it drops an item and
/// resets the counter, and `roll` is not looked at. Below the ceiling it
/// drops an item when `roll` is below the drop chance; such a drop resets
/// the counter only if the counter was active.
pub open spec fn after_kill(
    config: SimulationConfig,
    strategy: StrategyModel,
    state: RunModel,
    roll: int,
) -> RunModel {
    let active = strategy.active(state.counter as int);
    let counter = state.counter + 1;
    if counter >= config.max_counter_value {
        RunModel { counter: 0, drops: state.drops + 1 }
    } else if roll < config.drop_chance_spec(counter as int, active) {
        RunModel { counter: if active { 0 } else { counter }, drops: state.drops + 1 }
    } else {
        RunModel { counter, drops: state.drops }
    }
}

/// The state after one kill per entry of `rolls`, in order, starting from
/// [`initial`].
pub open spec fn run(config: SimulationConfig, strategy: StrategyModel, rolls: Seq<u64>) -> RunModel
    decreases rolls.len(),
{
    if rolls.len() == 0 {
        initial()
    } else {
        after_kill(config, strategy, run(config, strategy, rolls.drop_last()), rolls.last() as int)
    }
}

/// Whether `rolls` holds one roll for each of `steps` kills.
pub open spec fn valid_rolls(rolls: Seq<u64>, steps: nat) -> bool {
    &&& rolls.len() == steps
    &&& forall|i: int| 0 <= i < rolls.len() ==> rolls[i] < ROLL_RANGE
}

/// Whether some sequence of rolls makes a full run of `strategy` drop
/// exactly `drops` items.
pub open spec fn possible_yield(config: SimulationConfig, strategy: StrategyModel, drops: nat) -> bool {
    exists|rolls: Seq<u64>|
        valid_rolls(rolls, config.steps_per_strategy as nat)
            && (#[trigger] run(config, strategy, rolls)).drops == drops
}

/// What a run of `steps` kills drops when only pity drops: one item each
/// time the counter has climbed to the ceiling `max`.
pub open spec fn pity_yield(max: nat, steps: nat) -> nat {
    if max == 0 {
        steps
    } else {
        steps / max
    }
}

/// Whether `drops` lies in the range that every full run stays in: no
/// fewer items than pity alone gives, no more than there are kills.
pub open spec fn yield_in_range(config: SimulationConfig, drops: nat) -> bool {
    pity_yield(config.max_counter_value as nat, config.steps_per_strategy as nat) <= drops
        <= config.steps_per_strategy
}

/// The state of one simulation run.
#[derive(Clone, Copy, Debug)]
pub struct RunState {
    /// Kills since the counter last started over.
    pub counter: usize,
    /// Items dropped so far.
    pub drops: usize,
}

impl View for RunState {
    type V = RunModel;

    open spec fn view(&self) -> RunModel {
        RunModel { counter: self.counter as nat, drops: self.drops as nat }
    }
}

impl RunState {
    /// The state before the first kill.
    pub fn new() -> (state: RunState)
        ensures
            state@ == initial(),
    {
        RunState { counter: 0, drops: 0 }
    }

    /// Whether the next kill reaches the pity ceiling and so needs no roll.
    pub fn pity_due(&self, config: &SimulationConfig) -> (due: bool)
        ensures
            due == pity_due(*config, self@),
    {
        self.counter >= config.max_counter_value || self.counter + 1 >= config.max_counter_value
    }

    /// Applies one kill with the roll `roll`.
    pub fn kill(&mut self, config: &SimulationConfig, strategy: &Strategy, roll: u64)
        requires
            old(self).counter < usize::MAX,
            old(self).drops < usize::MAX,
        ensures
            final(self)@ == after_kill(*config, strategy@, old(self)@, roll as int),
    {
        let active = strategy.decide(self.counter);
        let counter: usize = self.counter + 1;
        if counter >= config.max_counter_value {
            self.counter = 0;
            self.drops = self.drops + 1;
        } else if (roll as i128) < config.drop_chance(counter, active) {
            self.counter = if active { 0 } else { counter };
            self.drops = self.drops + 1;
        } else {
            self.counter = counter;
        }
    }
}

/// Every kill of a run is paid for: each drop covers at most as many
/// kills as the ceiling is high, and the counter covers the rest.
proof fn lemma_kills_accounted(config: SimulationConfig, strategy: StrategyModel, rolls: Seq<u64>)
    requires
        config.max_counter_value > 0,
    ensures
        run(config, strategy, rolls).counter < config.max_counter_value,
        rolls.len() <= config.max_counter_value * run(config, strategy, rolls).drops + run(
            config,
            strategy,
            rolls,
        ).counter,
    decreases rolls.len(),
{
    if rolls.len() > 0 {
        let before = run(config, strategy, rolls.drop_last());
        lemma_kills_accounted(config, strategy, rolls.drop_last());
        lemma_mul_is_distributive_add(config.max_counter_value as int, before.drops as int, 1);
    }
}

/// A run drops no more items than it has kills and no fewer than pity
/// alone would give, and its counter stays below the ceiling.
pub proof fn lemma_yield_bounded(config: SimulationConfig, strategy: StrategyModel, rolls: Seq<u64>)
    ensures
        run(config, strategy, rolls).drops <= rolls.len(),
        run(config, strategy, rolls).counter <= rolls.len(),
        pity_yield(config.max_counter_value as nat, rolls.len()) <= run(config, strategy, rolls).drops,
        config.max_counter_value > 0 ==> run(config, strategy, rolls).counter
            < config.max_counter_value,
        config.max_counter_value == 0 ==> run(config, strategy, rolls).counter == 0,
    decreases rolls.len(),
{
    if rolls.len() > 0 {
        lemma_yield_bounded(config, strategy, rolls.drop_last());
    }
    if config.max_counter_value > 0 {
        let drops = run(config, strategy, rolls).drops;
        lemma_kills_accounted(config, strategy, rolls);
        lemma_mul_is_distributive_add(config.max_counter_value as int, drops as int, 1);
        lemma_multiply_divide_lt(
            rolls.len() as int,
            config.max_counter_value as int,
            drops as int + 1,
        );
    }
}

/// A possible yield lies between the pity yield and the number of kills,
/// and where only pity drops it is the pity yield.
pub proof fn lemma_possible_yield(config: SimulationConfig, strategy: StrategyModel, drops: nat)
    requires
        possible_yield(config, strategy, drops),
    ensures
        yield_in_range(config, drops),
        config.pity_only() ==> drops == pity_yield(
            config.max_counter_value as nat,
            config.steps_per_strategy as nat,
        ),
{
    let rolls = choose|rolls: Seq<u64>|
        valid_rolls(rolls, config.steps_per_strategy as nat) && (#[trigger] run(
            config,
            strategy,
            rolls,
        )).drops == drops;
    lemma_yield_bounded(config, strategy, rolls);
    if config.pity_only() {
        lemma_pity_only_run(config, strategy, rolls);
    }
}

/// How quotient and remainder move when the dividend grows by one.
proof fn lemma_div_mod_successor(n: int, m: int)
    requires
        0 <= n,
        0 < m,
    ensures
        n % m == m - 1 ==> (n + 1) % m == 0 && (n + 1) / m == n / m + 1,
        n % m != m - 1 ==> (n + 1) % m == n % m + 1 && (n + 1) / m == n / m,
{
    let q = n / m;
    let r = n % m;
    lemma_fundamental_div_mod(n, m);
    lemma_mod_pos_bound(n, m);
    lemma_mul_is_commutative(m, q);
    if r == m - 1 {
        lemma_mul_is_distributive_add_other_way(m, q, 1);
        lemma_fundamental_div_mod_converse(n + 1, m, q + 1, 0);
    } else {
        lemma_fundamental_div_mod_converse(n + 1, m, q, r + 1);
    }
}

/// Where no roll can drop an item, the rolls do not matter: the counter
/// climbs to the ceiling again and again, and each arrival drops one item.
pub proof fn lemma_pity_only_run(config: SimulationConfig, strategy: StrategyModel, rolls: Seq<u64>)
    requires
        config.pity_only(),
    ensures
        run(config, strategy, rolls).drops == pity_yield(
            config.max_counter_value as nat,
            rolls.len(),
        ),
        config.max_counter_value == 0 ==> run(config, strategy, rolls).counter == 0,
        config.max_counter_value > 0 ==> run(config, strategy, rolls).counter == rolls.len() % (
        config.max_counter_value as nat),
    decreases rolls.len(),
{
    if rolls.len() > 0 {
        let before = rolls.drop_last();
        lemma_pity_only_run(config, strategy, before);
        if config.max_counter_value > 0 {
            lemma_div_mod_successor(before.len() as int, config.max_counter_value as int);
        }
    }
}

/// Where every roll is zero, the base rate is positive and the multiplier
/// is not negative, every kill drops an item: by pity at the ceiling, by
/// the roll below it.
pub proof fn lemma_zero_rolls_always_drop(
    config: SimulationConfig,
    strategy: StrategyModel,
    rolls: Seq<u64>,
)
    requires
        config.base_drop_rate > 0,
        config.counter_multiplier >= 0,
        forall|i: int| 0 <= i < rolls.len() ==> rolls[i] == 0,
    ensures
        run(config, strategy, rolls).drops == rolls.len(),
    decreases rolls.len(),
{
    if rolls.len() > 0 {
        let before = rolls.drop_last();
        lemma_zero_rolls_always_drop(config, strategy, before);
        let counter = run(config, strategy, before).counter + 1;
        assert(config.counter_multiplier * counter >= 0) by (nonlinear_arith)
            requires
                config.counter_multiplier >= 0,
                counter >= 0,
        ;
    }
}

/// Runs one kill per entry of `rolls`, in order, and returns the number of
/// items dropped. The rolls stand in for the random source; the
/// configuration's number of steps is not read.
pub fn simulate_rolls(config: &SimulationConfig, strategy: &Strategy, rolls: &Vec<u64>) -> (drops:
    usize)
    ensures
        drops == run(*config, strategy@, rolls@).drops,
{
    let mut state = RunState::new();
    let mut step: usize = 0;
    while step < rolls.len()
        invariant
            step <= rolls.len(),
            state@ == run(*config, strategy@, rolls@.take(step as int)),
        decreases rolls.len() - step,
    {
        proof {
            lemma_yield_bounded(*config, strategy@, rolls@.take(step as int));
            assert(rolls@.take(step + 1).drop_last() =~= rolls@.take(step as int));
        }
        state.kill(config, strategy, rolls[step]);
        step += 1;
    }
    assert(rolls@.take(step as int) =~= rolls@);
    state.drops
}

/// Simulates `config.steps_per_strategy` kills under `strategy`, with rolls
/// from the random generator of the thread it runs on, and returns the
/// number of items dropped. A roll is drawn only for a kill that stays
/// below the pity ceiling. Which of the possible yields comes out is up to
/// the rolls.
pub fn simulate_strategy(config: &SimulationConfig, strategy: &Strategy) -> (drops: usize)
    ensures
        possible_yield(*config, strategy@, drops as nat),
        yield_in_range(*config, drops as nat),
        config.pity_only() ==> drops == pity_yield(
            config.max_counter_value as nat,
            config.steps_per_strategy as nat,
        ),
{
    let mut rng = rand::thread_rng();
    let mut state = RunState::new();
    let ghost mut rolls: Seq<u64> = Seq::empty();
    let mut step: usize = 0;
    while step < config.steps_per_strategy
        invariant
            step <= config.steps_per_strategy,
            valid_rolls(rolls, step as nat),
            state@ == run(*config, strategy@, rolls),
        decreases config.steps_per_strategy - step,
    {
        let roll: u64 = if state.pity_due(config) {
            0
        } else {
            draw_roll(&mut rng)
        };
        proof {
            lemma_yield_bounded(*config, strategy@, rolls);
            assert(rolls.push(roll).drop_last() =~= rolls);
            rolls = rolls.push(roll);
        }
        state.kill(config, strategy, roll);
        step += 1;
    }
    proof {
        lemma_yield_bounded(*config, strategy@, rolls);
        if config.pity_only() {
            lemma_pity_only_run(*config, strategy@, rolls);
        }
    }
    state.drops
}

} // verus!
