//! The random source of a simulation: the thread-local generator of `rand`.

use vstd::prelude::*;
use rand::RngCore;
use crate::simulation::ROLL_RANGE;

verus! {

/// `rand::rngs::ThreadRng`, a handle to the generator of the current
/// thread. Nothing is known of what it holds.
#[verifier::external_type_specification]
#[verifier::external_body]
pub struct ExThreadRng(rand::rngs::ThreadRng);

/// `rand::thread_rng` hands out the generator of the current thread, which
/// the operating system seeds on first use. Nothing is claimed of the
/// handle. The call takes no input; it panics only where the operating
/// system cannot supply a seed.
pub assume_specification[ rand::thread_rng ]() -> (rng: rand::rngs::ThreadRng)
;

/// Calls `rand::RngCore::next_u64` on the thread's generator, which
/// advances the generator and returns 64 random bits. Nothing is claimed
/// of the bits.
#[verifier::external_body]
fn next_bits(rng: &mut rand::rngs::ThreadRng) -> u64 {
    rng.next_u64()
}

/// The roll that 64 random bits stand for: their top 53 bits, read as a
/// number. The low 11 bits are dropped.
pub open spec fn roll_of(bits: u64) -> u64 {
    (bits / 2048) as u64
}

/// Turns 64 random bits into a roll by keeping the top 53 of them. Where
/// the bits are uniform, so is the roll: each roll is hit by exactly 2048
/// bit patterns.
pub fn roll_from_bits(bits: u64) -> (roll: u64)
    ensures
        roll == roll_of(bits),
        roll < ROLL_RANGE,
{
    assert(bits >> 11 == bits / 2048) by (bit_vector);
    assert(bits >> 11 < 9007199254740992) by (bit_vector);
    bits >> 11
}

/// Draws a roll: 64 fresh random bits from `rng`, turned into a roll by
/// [`roll_from_bits`]. Which roll comes out is up to the generator; whatever
/// the bits are, the roll lies below `ROLL_RANGE`.
pub fn draw_roll(rng: &mut rand::rngs::ThreadRng) -> (roll: u64)
    ensures
        roll < ROLL_RANGE,
{
    let bits: u64 = next_bits(rng);
    roll_from_bits(bits)
}

} // verus!
