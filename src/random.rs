//! The single pseudorandom stream that every gameplay draw comes from.
use randomize::PCG32;
use vstd::prelude::*;

verus! {

#[verifier::external_type_specification]
#[verifier::external_body]
pub struct ExPCG32(PCG32);

/// Relies on randomize::PCG32::seed: builds a generator from a seed and a stream selector.
#[verifier::external_body]
fn pcg32_seed(seed: u64, inc: u64) -> PCG32 {
    PCG32::seed(seed, inc)
}

/// Relies on randomize::PCG32::next_u32: advances the generator and returns its output.
#[verifier::external_body]
fn pcg32_next_u32(rng: &mut PCG32) -> u32 {
    rng.next_u32()
}

/// The world's random number generator.
pub struct Random {
    rng: PCG32,
}

impl Random {
    /// Seeds the stream; the caller supplies entropy (for example from the OS).
    pub fn from_seed(seed: u64, inc: u64) -> Random {
        Random { rng: pcg32_seed(seed, inc) }
    }

    /// Draws the next 32 random bits.
    pub fn next_u32(&mut self) -> u32 {
        pcg32_next_u32(&mut self.rng)
    }
}

} // verus!
