//! A small linear congruential generator for targets without an entropy source.

use vstd::prelude::*;

verus! {

/// Multiplier of the generator.
pub const LCG_MULTIPLIER: u32 = 1664525;

/// Increment of the generator.
pub const LCG_INCREMENT: u32 = 1013904223;

/// The state that follows `state`: `state * LCG_MULTIPLIER + LCG_INCREMENT` modulo 2^32.
pub open spec fn lcg_step(state: u32) -> u32 {
    ((state as int * LCG_MULTIPLIER as int + LCG_INCREMENT as int) % 0x1_0000_0000) as u32
}

/// Deterministic pseudo-random number generator.
pub struct SimpleRng {
    state: u32,
}

impl SimpleRng {
    /// The current state of the generator.
    pub closed spec fn state(&self) -> u32 {
        self.state
    }

    /// A generator started from `seed`; a zero seed is replaced by one.
    pub fn new(seed: u32) -> (rng: Self)
        ensures
            rng.state() == (if seed == 0 { 1u32 } else { seed }),
    {
        Self { state: if seed == 0 { 1 } else { seed } }
    }

    /// Advances the generator and returns the new state.
    pub fn next_u32(&mut self) -> (value: u32)
        ensures
            value == lcg_step(old(self).state()),
            final(self).state() == value,
    {
        let product: u32 = self.state.wrapping_mul(LCG_MULTIPLIER);
        let next: u32 = product.wrapping_add(LCG_INCREMENT);
        proof {
            let s = old(self).state as int;
            let m = LCG_MULTIPLIER as int;
            let c = LCG_INCREMENT as int;
            assert(product as int == (s * m) % 0x1_0000_0000);
            assert(next as int == (product as int + c) % 0x1_0000_0000);
            vstd::arithmetic::div_mod::lemma_add_mod_noop(s * m, c, 0x1_0000_0000);
            vstd::arithmetic::div_mod::lemma_small_mod((c % 0x1_0000_0000) as nat, 0x1_0000_0000);
        }
        self.state = next;
        next
    }
}

} // verus!
