//! The integer generator behind a weak agent's pseudo-random weights.
//!
//! An agent built from a seed draws one value per feature from a linear
//! congruential sequence: starting from the seed, step `i` adds `i` and then
//! multiplies by a fixed constant, both modulo 2^64. The weight of feature `i`
//! is then read from the top 31 bits of the state after step `i`.
use vstd::prelude::*;
use vstd::arithmetic::div_mod::lemma_mul_mod_noop_left;

verus! {

/// The multiplier of the generator.
pub const LCG_MULTIPLIER: u64 = 6364136223846793005u64;

/// State of the generator after `n` steps from `seed`: step `i` adds `i`
/// and multiplies by the multiplier, modulo 2^64.
pub open spec fn lcg_state(seed: u64, n: nat) -> u64
    decreases n,
{
    if n == 0 {
        seed
    } else {
        (((lcg_state(seed, (n - 1) as nat) + (n - 1)) * LCG_MULTIPLIER) % 0x1_0000_0000_0000_0000) as u64
    }
}

/// One step of the generator with wrapping machine arithmetic.
proof fn lemma_wrapping_step(s: u64, i: u64)
    ensures
        s.wrapping_add(i).wrapping_mul(LCG_MULTIPLIER) as int == ((s + i) * LCG_MULTIPLIER)
            % 0x1_0000_0000_0000_0000,
{
    let m: int = 0x1_0000_0000_0000_0000;
    let a = s.wrapping_add(i);
    assert(a as int == (s + i) % m);
    lemma_mul_mod_noop_left(s + i, LCG_MULTIPLIER as int, m);
}

/// The value drawn for feature `i`: the top 31 bits of the state after step `i + 1`.
pub open spec fn lcg_draw(seed: u64, i: nat) -> u64 {
    lcg_state(seed, i + 1) >> 33u64
}

/// Draws `feature_dim` values from the generator started at `seed`, one per
/// feature; each is below 2^31.
pub fn lcg_draws(seed: u64, feature_dim: usize) -> (draws: Vec<u64>)
    ensures
        draws@.len() == feature_dim,
        forall|i: int| 0 <= i < feature_dim ==> #[trigger] draws@[i] == lcg_draw(seed, i as nat),
        forall|i: int| 0 <= i < feature_dim ==> #[trigger] draws@[i] < 0x8000_0000,
{
    let mut s: u64 = seed;
    let mut draws: Vec<u64> = Vec::new();
    for i in 0..feature_dim
        invariant
            draws@.len() == i,
            s == lcg_state(seed, i as nat),
            forall|k: int| 0 <= k < i ==> #[trigger] draws@[k] == lcg_draw(seed, k as nat),
            forall|k: int| 0 <= k < i ==> #[trigger] draws@[k] < 0x8000_0000,
    {
        proof {
            lemma_wrapping_step(s, i as u64);
        }
        s = s.wrapping_add(i as u64).wrapping_mul(LCG_MULTIPLIER);
        let d = s >> 33u64;
        assert(d < 0x8000_0000) by (bit_vector)
            requires
                d == s >> 33u64,
        ;
        draws.push(d);
    }
    draws
}

/// The generator steps from `seed` by adding the full step index and then
/// multiplying, modulo 2^64: for every `n`, the state after step `n + 1` is
/// `(state_n + n) * 6364136223846793005 mod 2^64`, and the value drawn for
/// feature `n` is that state divided by 2^33.
pub proof fn law_lcg_step(seed: u64, n: nat)
    ensures
        lcg_state(seed, 0) == seed,
        lcg_state(seed, n + 1) as int == ((lcg_state(seed, n) as int + n) * 6364136223846793005int)
            % 18446744073709551616int,
        lcg_draw(seed, n) as int == lcg_state(seed, n + 1) as int / 8589934592int,
{
    let x = lcg_state(seed, n + 1);
    assert(x >> 33u64 == x / 8589934592u64) by (bit_vector);
}

} // verus!
