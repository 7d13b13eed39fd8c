//! A linear congruential generator with the MMIX constants.
//!
//! The generator's whole state is one `u64`. A draw replaces the state
//! `s` by `(s * MULTIPLIER + INCREMENT) mod 2^64` and emits the upper 32
//! bits of the new state.

use crate::clock;
use vstd::arithmetic::div_mod::lemma_fundamental_div_mod;
use vstd::arithmetic::div_mod::lemma_fundamental_div_mod_converse;
use vstd::prelude::*;

verus! {

/// The multiplier of the recurrence.
pub const MULTIPLIER: u64 = 6364136223846793005;

/// The increment of the recurrence.
pub const INCREMENT: u64 = 1442695040888963407;

/// The state that follows `state` in the recurrence.
#[verifier::opaque]
pub open spec fn next_state(state: u64) -> u64 {
    ((state * MULTIPLIER + INCREMENT) % 0x1_0000_0000_0000_0000) as u64
}

/// The value emitted when the generator has just moved to `state`: its
/// upper 32 bits.
pub open spec fn output_of(state: u64) -> u32 {
    (state / 0x1_0000_0000) as u32
}

/// The state reached from `state` after `draws` draws.
pub open spec fn state_after(state: u64, draws: nat) -> u64
    decreases draws,
{
    if draws == 0 {
        state
    } else {
        next_state(state_after(state, (draws - 1) as nat))
    }
}

/// The value emitted by draw number `index` (counted from 0) of a
/// generator that started in `state`.
pub open spec fn nth_output(state: u64, index: nat) -> u32 {
    output_of(state_after(state, index + 1))
}

/// Adding `c` to `p` modulo `r` is adding `c` to the residue of `p` and
/// folding the sum back below `r` once.
proof fn lemma_add_then_reduce(p: int, c: int, r: int)
    requires
        0 < r,
        0 <= c < r,
    ensures
        (p + c) % r == if p % r + c >= r {
            p % r + c - r
        } else {
            p % r + c
        },
{
    let q = p / r;
    let m = p % r;
    lemma_fundamental_div_mod(p, r);
    if m + c >= r {
        assert((q + 1) * r == q * r + r) by (nonlinear_arith);
        assert(r * q == q * r) by (nonlinear_arith);
        lemma_fundamental_div_mod_converse(p + c, r, q + 1, m + c - r);
    } else {
        assert(r * q == q * r) by (nonlinear_arith);
        lemma_fundamental_div_mod_converse(p + c, r, q, m + c);
    }
}

/// Drawing `first` values and then `then` more leaves the generator
/// where `first + then` draws in one run leave it.
pub proof fn lemma_state_after_add(state: u64, first: nat, then: nat)
    ensures
        state_after(state_after(state, first), then) == state_after(state, first + then),
    decreases then,
{
    if then > 0 {
        lemma_state_after_add(state, first, (then - 1) as nat);
        assert(first + then - 1 == first + (then - 1) as nat);
    }
}

/// The seed alone decides the stream: two generators in the same state
/// emit the same value at every draw and are in the same state after it.
pub proof fn lemma_same_seed_same_stream(first: LCG, second: LCG)
    requires
        first@ == second@,
    ensures
        forall|draws: nat| state_after(first@, draws) == state_after(second@, draws),
        forall|index: nat| nth_output(first@, index) == nth_output(second@, index),
{
}

/// A linear congruential generator.
pub struct LCG {
    state: u64,
}

impl View for LCG {
    type V = u64;

    /// The current state of the generator.
    closed spec fn view(&self) -> u64 {
        self.state
    }
}

impl LCG {
    /// Creates a generator seeded with the whole seconds that the system
    /// clock counts since the Unix epoch.
    ///
    /// The clock decides the result, so nothing is promised of it here:
    /// it is what [`LCG::from_elapsed`] makes of the reading, whatever
    /// the reading is.
    pub fn from_sys_timestamp() -> Option<Self> {
        let instant = clock::now();
        let elapsed = match clock::since_unix_epoch(&instant) {
            Ok(elapsed) => Some(clock::whole_seconds(&elapsed)),
            Err(_) => None,
        };
        Self::from_elapsed(elapsed)
    }

    /// Creates a generator whose state is `seed`.
    pub fn new(seed: u64) -> (rng: Self)
        ensures
            rng@ == seed,
    {
        Self { state: seed }
    }

    /// Creates the generator for a reading of the clock: `elapsed` holds
    /// the whole seconds from the epoch to the reading, or nothing where
    /// the reading lies before the epoch.
    ///
    /// A reading after the epoch seeds the generator with its seconds. A
    /// reading before it gives no generator.
    pub fn from_elapsed(elapsed: Option<u64>) -> (made: Option<Self>)
        ensures
            made is Some <==> elapsed is Some,
            made matches Some(rng) ==> rng@ == elapsed->0,
    {
        match elapsed {
            Some(seconds) => Some(Self::new(seconds)),
            None => None,
        }
    }

    /// Advances the state once and returns the upper 32 bits of the new
    /// state.
    pub fn random_u32(&mut self) -> (value: u32)
        ensures
            final(self)@ == next_state(old(self)@),
            value == output_of(final(self)@),
    {
        let product: u64 = self.state.wrapping_mul(MULTIPLIER);
        let updated: u64 = product.wrapping_add(INCREMENT);
        proof {
            reveal(next_state);
            lemma_add_then_reduce(
                self.state * MULTIPLIER,
                INCREMENT as int,
                0x1_0000_0000_0000_0000,
            );
        }
        assert(updated >> 32 == updated / 0x1_0000_0000 && (updated >> 32) <= 0xffff_ffff)
            by (bit_vector);
        self.state = updated;
        (updated >> 32) as u32
    }

    /// Draws the next value. The generator is never exhausted: the
    /// result is always `Some`.
    pub fn next(&mut self) -> (item: Option<u32>)
        ensures
            final(self)@ == next_state(old(self)@),
            item == Some(output_of(final(self)@)),
    {
        Some(self.random_u32())
    }
}

} // verus!
