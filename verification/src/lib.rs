//! Monte Carlo estimation of item-drop yield under a pity counter, and a
//! greedy search for the counter-activation rule with the highest yield.
//!
//! A kill raises the pity counter by one. When the counter reaches its
//! ceiling the kill drops an item for certain and the counter starts over.
//! Below the ceiling the kill drops an item with a probability that grows
//! with the counter while a [`strategy::Strategy`] marks the counter active.
//!
//! Probabilities are fixed-point integers: the value `p` stands for the
//! probability `p / ROLL_RANGE`, and a roll is a uniform integer below
//! [`simulation::ROLL_RANGE`].

pub mod evaluator;
pub mod optimizer;
pub mod random;
pub mod simulation;
pub mod strategy;

