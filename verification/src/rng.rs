//! Random sources.
//!
//! The seedable generator is a xoroshiro128+-style mixer whose whole step is
//! pinned down by spec functions, so every run from the same seed produces
//! the same draws.  A thread-default source is available for runs that do not
//! need to be reproducible; nothing is assumed of its draws beyond their
//! range.  Child seeds for simulations are derived by a splitmix-style
//! mixing function of the tournament seed and the simulation coordinates.

use vstd::prelude::*;

verus! {

/// Seedable pseudo-random generator with two 64-bit words of state.
#[derive(Clone, Copy, PartialEq, Eq, Structural, Debug)]
pub struct Xoroshiro128Plus {
    pub s0: u64,
    pub s1: u64,
}

/// Rotate `x` left by `k` bits (`0 < k < 64`).
pub open spec fn rotl64(x: u64, k: u64) -> u64 {
    (x << k) | (x >> (64 - k) as u64)
}

/// The output of one generator step.
pub open spec fn spec_next_value(st: Xoroshiro128Plus) -> u64 {
    vstd::wrapping::u64_specs::wrapping_add(st.s0, st.s1)
}

/// The generator state after one step.
pub open spec fn spec_next_state(st: Xoroshiro128Plus) -> Xoroshiro128Plus {
    let t = st.s1 ^ st.s0;
    Xoroshiro128Plus { s0: rotl64(st.s0, 24) ^ t ^ (t << 16u64), s1: rotl64(t, 37) }
}

/// One die draw: value in `1 ..= 6` and the state after it.
pub open spec fn spec_roll_d6(st: Xoroshiro128Plus) -> (u8, Xoroshiro128Plus) {
    (((spec_next_value(st) % 6) + 1) as u8, spec_next_state(st))
}

/// Two die draws summed: value in `2 ..= 12` and the state after them.
pub open spec fn spec_roll_2d6(st: Xoroshiro128Plus) -> (u8, Xoroshiro128Plus) {
    let (a, st1) = spec_roll_d6(st);
    let (b, st2) = spec_roll_d6(st1);
    ((a + b) as u8, st2)
}

/// A uniform 32-bit draw (the high half of one step) and the state after it.
pub open spec fn spec_draw32(st: Xoroshiro128Plus) -> (u64, Xoroshiro128Plus) {
    (spec_next_value(st) >> 32u64, spec_next_state(st))
}

/// One round of splitmix-style avalanche mixing.
pub open spec fn spec_mix64(z: u64) -> u64 {
    let a = vstd::wrapping::u64_specs::wrapping_mul(z ^ (z >> 30u64), 0xBF58476D1CE4E5B9);
    let b = vstd::wrapping::u64_specs::wrapping_mul(a ^ (a >> 27u64), 0x94D049BB133111EB);
    b ^ (b >> 31u64)
}

/// The child seed for simulation `k` of the pairing `(i, j)` under
/// tournament seed `seed`.
pub open spec fn spec_derive_seed(seed: u64, i: u64, j: u64, k: u64) -> u64 {
    let a = spec_mix64(seed ^ vstd::wrapping::u64_specs::wrapping_mul(i, 0x9E3779B97F4A7C15));
    let b = spec_mix64(a ^ vstd::wrapping::u64_specs::wrapping_mul(j, 0xC2B2AE3D27D4EB4F));
    spec_mix64(b ^ vstd::wrapping::u64_specs::wrapping_mul(k, 0x165667B19E3779F9))
}

impl Xoroshiro128Plus {
    /// Create a generator from a 64-bit seed.
    pub fn new(seed: u64) -> (r: Self)
        ensures
            r.s0 == seed,
            r.s1 == 0,
    {
        let mut rng = Xoroshiro128Plus { s0: 0, s1: 0 };
        rng.seed(seed);
        rng
    }

    /// Reset the state from a 64-bit seed.
    pub fn seed(&mut self, seed: u64)
        ensures
            final(self).s0 == seed,
            final(self).s1 == 0,
    {
        self.s0 = seed;
        self.s1 = 0;
    }

    /// Advance the generator one step and return its 64-bit output.
    pub fn next_u64(&mut self) -> (r: u64)
        ensures
            r == spec_next_value(*old(self)),
            *final(self) == spec_next_state(*old(self)),
    {
        let s0 = self.s0;
        let mut s1 = self.s1;
        let result = s0.wrapping_add(s1);
        s1 = s1 ^ s0;
        self.s0 = ((s0 << 24) | (s0 >> 40)) ^ s1 ^ (s1 << 16);
        self.s1 = (s1 << 37) | (s1 >> 27);
        result
    }

    /// The low 32 bits of the next 64-bit output.
    pub fn next_u32(&mut self) -> (r: u32)
        ensures
            r == spec_next_value(*old(self)) as u32,
            *final(self) == spec_next_state(*old(self)),
    {
        let v = self.next_u64();
        proof {
            assert((v & 0xFFFF_FFFF) < 0x1_0000_0000 && (v & 0xFFFF_FFFF) as u32 == v as u32)
                by (bit_vector);
        }
        (v & 0xFFFF_FFFF) as u32
    }

    /// A uniform die value in `1 ..= 6`.
    pub fn roll_d6(&mut self) -> (r: u8)
        ensures
            (r, *final(self)) == spec_roll_d6(*old(self)),
            1 <= r <= 6,
    {
        let v = self.next_u64();
        ((v % 6) + 1) as u8
    }

    /// The sum of two die draws, in `2 ..= 12`.
    pub fn roll_2d6(&mut self) -> (r: u8)
        ensures
            (r, *final(self)) == spec_roll_2d6(*old(self)),
            2 <= r <= 12,
    {
        let a = self.roll_d6();
        let b = self.roll_d6();
        a + b
    }

    /// A uniform draw in `0 .. 2^32`, as the high half of one step.
    pub fn draw32(&mut self) -> (r: u64)
        ensures
            (r, *final(self)) == spec_draw32(*old(self)),
            r < 0x1_0000_0000,
    {
        let v = self.next_u64();
        proof {
            assert(v >> 32u64 < 0x1_0000_0000) by (bit_vector);
        }
        v >> 32
    }
}

/// Derive the child seed for simulation `k` of pairing `(i, j)` from the
/// tournament seed: a stable mixing function, so aggregates are reproducible
/// for any scheduling of simulations.
pub fn derive_seed(seed: u64, i: u64, j: u64, k: u64) -> (r: u64)
    ensures
        r == spec_derive_seed(seed, i, j, k),
{
    let a = mix64(seed ^ i.wrapping_mul(0x9E3779B97F4A7C15));
    let b = mix64(a ^ j.wrapping_mul(0xC2B2AE3D27D4EB4F));
    mix64(b ^ k.wrapping_mul(0x165667B19E3779F9))
}

fn mix64(z: u64) -> (r: u64)
    ensures
        r == spec_mix64(z),
{
    let a = (z ^ (z >> 30)).wrapping_mul(0xBF58476D1CE4E5B9);
    let b = (a ^ (a >> 27)).wrapping_mul(0x94D049BB133111EB);
    b ^ (b >> 31)
}

/// Relies on rand::random: a draw of the thread-default generator, about
/// which nothing is assumed.
pub assume_specification<T>[ rand::random::<T> ]() -> (r: T)
    where
        rand::distributions::Standard: rand::distributions::Distribution<T>,
;

/// A die value in `1 ..= 6` from the thread-default source, for runs that do
/// not need to be reproducible.
pub fn thread_roll_d6() -> (r: u8)
    ensures
        1 <= r <= 6,
{
    let v: u64 = rand::random();
    ((v % 6) + 1) as u8
}

/// The sum of two thread-default die draws, in `2 ..= 12`.
pub fn thread_roll_2d6() -> (r: u8)
    ensures
        2 <= r <= 12,
{
    let a = thread_roll_d6();
    let b = thread_roll_d6();
    a + b
}

/// The dice source a match is constructed with: either the seedable
/// generator, whose draws are fully determined by the seed, or the
/// thread-default source.
#[derive(Clone, Copy, PartialEq, Eq, Structural, Debug)]
pub enum RandomSource {
    Seeded(Xoroshiro128Plus),
    ThreadDefault,
}

impl RandomSource {
    /// The source an optimization level selects: the standard levels draw
    /// from the thread-default source, the fast levels from the seeded
    /// generator.
    pub fn for_level(level: crate::engine::OptimizationLevel, seed: u64) -> (r: RandomSource)
        ensures
            (level is Fast || level is UltraOptimized) ==> r == RandomSource::Seeded(
                Xoroshiro128Plus { s0: seed, s1: 0 },
            ),
            (level is Standard || level is FastPrecise) ==> r is ThreadDefault,
    {
        match level {
            crate::engine::OptimizationLevel::Standard => RandomSource::ThreadDefault,
            crate::engine::OptimizationLevel::FastPrecise => RandomSource::ThreadDefault,
            crate::engine::OptimizationLevel::Fast => RandomSource::Seeded(
                Xoroshiro128Plus::new(seed),
            ),
            crate::engine::OptimizationLevel::UltraOptimized => RandomSource::Seeded(
                Xoroshiro128Plus::new(seed),
            ),
        }
    }

    /// A two-dice roll routed through this source.  On the seeded source the
    /// draw and the state after it are fully determined.
    pub fn roll_2d6(&mut self) -> (r: u8)
        ensures
            2 <= r <= 12,
            *old(self) is ThreadDefault ==> *final(self) is ThreadDefault,
            *old(self) matches RandomSource::Seeded(st) ==> {
                &&& r == spec_roll_2d6(st).0
                &&& *final(self) == RandomSource::Seeded(spec_roll_2d6(st).1)
            },
    {
        let cur = *self;
        match cur {
            RandomSource::Seeded(mut rng) => {
                let r = rng.roll_2d6();
                *self = RandomSource::Seeded(rng);
                r
            },
            RandomSource::ThreadDefault => thread_roll_2d6(),
        }
    }
}

} // verus!
