//! Deterministic pseudo-random source: a 64-bit linear congruential
//! generator, seeded so that runs are reproducible.

use vstd::prelude::*;

verus! {

/// Multiplier of the generator.
pub const LCG_MULTIPLIER: u64 = 6364136223846793005;

/// Increment of the generator.
pub const LCG_INCREMENT: u64 = 1442695040888963407;

/// Seed that every fresh source starts from.
pub const DEFAULT_SEED: u64 = 42;

/// Number of distinct values a draw can take (draws are 31-bit).
pub const DRAW_RANGE: u64 = 0x8000_0000;

/// One step of the generator: `seed * a + c` modulo 2^64.
pub open spec fn lcg_step(seed: u64) -> u64 {
    ((seed as nat * LCG_MULTIPLIER as nat + LCG_INCREMENT as nat) % 0x1_0000_0000_0000_0000nat) as u64
}

/// The 31-bit value drawn from a state: its top 31 bits.
pub open spec fn draw_of(state: u64) -> u64 {
    state / 0x2_0000_0000
}

/// A pseudo-random source; `seed` is its whole state.
#[derive(Debug, Clone, Copy, PartialEq, Eq, Structural)]
pub struct PseudoRandom {
    /// Current state of the generator.
    pub seed: u64,
}

proof fn lemma_wrapping_step(seed: u64)
    ensures
        vstd::wrapping::u64_specs::wrapping_add(
            vstd::wrapping::u64_specs::wrapping_mul(seed, LCG_MULTIPLIER),
            LCG_INCREMENT,
        ) == lcg_step(seed),
{
    let r: int = 0x1_0000_0000_0000_0000;
    let c: int = LCG_INCREMENT as int;
    let p: int = seed as int * LCG_MULTIPLIER as int;
    let m: int = p % r;
    vstd::arithmetic::div_mod::lemma_mod_pos_bound(p, r);
    vstd::arithmetic::div_mod::lemma_add_mod_noop_right(c, p, r);
    assert((m + c) % r == (p + c) % r);
    if m + c >= r {
        vstd::arithmetic::div_mod::lemma_mod_sub_multiples_vanish(m + c, r);
        vstd::arithmetic::div_mod::lemma_small_mod((m + c - r) as nat, r as nat);
    } else {
        vstd::arithmetic::div_mod::lemma_small_mod((m + c) as nat, r as nat);
    }
}

impl PseudoRandom {
    /// A source in its initial state.
    pub fn new() -> (r: Self)
        ensures
            r.seed == DEFAULT_SEED,
    {
        PseudoRandom { seed: DEFAULT_SEED }
    }

    /// A source that starts from `seed`.
    pub fn with_seed(seed: u64) -> (r: Self)
        ensures
            r.seed == seed,
    {
        PseudoRandom { seed }
    }

    /// Advance the generator one step and return the 31-bit value drawn
    /// (a uniform fraction of `DRAW_RANGE`).
    pub fn next_draw(&mut self) -> (d: u64)
        ensures
            final(self).seed == lcg_step(old(self).seed),
            d == draw_of(final(self).seed),
            d < DRAW_RANGE,
    {
        proof {
            lemma_wrapping_step(self.seed);
        }
        let next = self.seed.wrapping_mul(LCG_MULTIPLIER).wrapping_add(LCG_INCREMENT);
        self.seed = next;
        let d = next >> 33u64;
        assert(d == next / 0x2_0000_0000 && d < 0x8000_0000) by (bit_vector)
            requires
                d == next >> 33u64,
        ;
        d
    }
}

/// A fair coin: advances `rng` one step and reports whether the drawn value
/// lies in the lower half of its range.
pub fn rand_bool(rng: &mut PseudoRandom) -> (b: bool)
    ensures
        final(rng).seed == lcg_step(old(rng).seed),
        b == (draw_of(final(rng).seed) < DRAW_RANGE / 2),
{
    rng.next_draw() < DRAW_RANGE / 2
}

} // verus!
