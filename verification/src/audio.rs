//! Sound identifiers and the deterministic noise generator used by the
//! procedural sound bank.

use vstd::prelude::*;

verus! {

/// The sound effects of the bank, each synthesized once at startup.
#[derive(Debug, Clone, Copy, PartialEq, Eq, Structural)]
pub enum Sfx {
    Shot,
    BoltFire,
    BoltImpact,
    EnemyDeath,
    PlayerHit,
    WaveStart,
    GameOver,
    HealthSpawn,
    HealthPickup,
    BossRing,
}

/// Seed of every noise source: sounds are identical every run.
pub const NOISE_SEED: u64 = 0x1234_5678_9ABC_DEF1;

/// Multiplier of the xorshift* output scramble.
pub const NOISE_MULTIPLIER: u64 = 0x2545_F491_4F6C_DD1D;

/// One xorshift step (shifts 12, 25, 27) of the generator state.
pub open spec fn xorshift(x: u64) -> u64 {
    let x1 = x ^ (x >> 12u64);
    let x2 = x1 ^ (x1 << 25u64);
    x2 ^ (x2 >> 27u64)
}

/// The 24-bit sample that a state yields: the top 24 bits of the
/// wrapped product with the xorshift* multiplier.
pub open spec fn noise_sample(state: u64) -> u32 {
    (vstd::wrapping::u64_specs::wrapping_mul(state, NOISE_MULTIPLIER) >> 40u64) as u32
}

/// Deterministic noise (xorshift*).
pub struct Noise(pub u64);

impl Noise {
    /// A generator at the fixed seed.
    pub fn new() -> (noise: Self)
        ensures
            noise.0 == NOISE_SEED,
    {
        Noise(NOISE_SEED)
    }

    /// Advance the state one xorshift step and return its 24-bit sample
    /// `s`; the sound bank maps it to the float `s / 2^23 - 1` in [-1, 1).
    pub fn next(&mut self) -> (sample: u32)
        ensures
            final(self).0 == xorshift(old(self).0),
            sample == noise_sample(final(self).0),
            sample < 0x100_0000,
    {
        let mut x = self.0;
        x ^= x >> 12u64;
        x ^= x << 25u64;
        x ^= x >> 27u64;
        self.0 = x;
        let product = x.wrapping_mul(NOISE_MULTIPLIER);
        let top = product >> 40u64;
        assert(top < 0x100_0000) by (bit_vector)
            requires
                top == product >> 40u64,
        ;
        top as u32
    }
}

} // verus!
