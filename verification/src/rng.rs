//! A small deterministic pseudo-random generator (the splitmix construction)
//! with an exact specification, so that every stochastic decision in the
//! renderer is a pure function of the generator state.  Seeding from system
//! entropy is the one place the outside world enters.

use vstd::prelude::*;

verus! {

use vstd::wrapping::u64_specs;
use crate::vec3::{Vec3, V3, v3_norm, v3_scale, in_bound};

/// Relies on rand::random: draws one value from the thread-local generator;
/// nothing is promised of the result.
pub assume_specification<T>[ rand::random::<T> ]() -> (r: T)
    where
        rand::distributions::Standard: rand::distributions::Distribution<T>,
;

/// One state advance of the generator.
pub open spec fn rng_step(s: u64) -> u64 {
    u64_specs::wrapping_add(s, 0x9E3779B97F4A7C15)
}

/// The output mix applied to an advanced state.
pub open spec fn rng_mix(s: u64) -> u64 {
    let z1 = u64_specs::wrapping_mul(s ^ (s >> 30u64), 0xBF58476D1CE4E5B9);
    let z2 = u64_specs::wrapping_mul(z1 ^ (z1 >> 27u64), 0x94D049BB133111EB);
    z2 ^ (z2 >> 31u64)
}

/// The state after `k` advances.
pub open spec fn rng_skip(s: u64, k: nat) -> u64
    decreases k,
{
    if k == 0 {
        s
    } else {
        rng_step(rng_skip(s, (k - 1) as nat))
    }
}

/// Deterministic pseudo-random generator; the state is the view.
pub struct RngState {
    s: u64,
}

impl View for RngState {
    type V = u64;

    closed spec fn view(&self) -> u64 {
        self.s
    }
}

impl RngState {
    /// A generator at the given seed.
    pub fn new(seed: u64) -> (r: RngState)
        ensures
            r@ == seed,
    {
        RngState { s: seed }
    }

    /// A generator seeded from system entropy.
    pub fn from_entropy() -> (r: RngState) {
        RngState { s: rand::random::<u64>() }
    }

    /// The next raw draw.
    pub fn next_u64(&mut self) -> (r: u64)
        ensures
            final(self)@ == rng_step(old(self)@),
            r == rng_mix(rng_step(old(self)@)),
    {
        self.s = self.s.wrapping_add(0x9E3779B97F4A7C15);
        let z = self.s;
        let z1 = (z ^ (z >> 30u64)).wrapping_mul(0xBF58476D1CE4E5B9);
        let z2 = (z1 ^ (z1 >> 27u64)).wrapping_mul(0x94D049BB133111EB);
        z2 ^ (z2 >> 31u64)
    }

    /// A draw reduced below `m`.
    pub fn next_below(&mut self, m: u64) -> (r: u64)
        requires
            m > 0,
        ensures
            final(self)@ == rng_step(old(self)@),
            r == rng_mix(rng_step(old(self)@)) % m,
            r < m,
    {
        let v = self.next_u64();
        v % m
    }
}

/// The output mix alone, for deriving one generator state from another.
pub fn mix_u64(z: u64) -> (r: u64)
    ensures
        r == rng_mix(z),
{
    let z1 = (z ^ (z >> 30u64)).wrapping_mul(0xBF58476D1CE4E5B9);
    let z2 = (z1 ^ (z1 >> 27u64)).wrapping_mul(0x94D049BB133111EB);
    z2 ^ (z2 >> 31u64)
}

/// The vector drawn from the generator state `s0` by `random_in_unit_sphere`:
/// three components in `[-FX_ONE, FX_ONE]`, normalized, then scaled by a
/// radius in `[0, FX_ONE]`; four draws in all.
pub open spec fn sample_in_unit_sphere_spec(s0: u64) -> V3 {
    let s1 = rng_step(s0);
    let x = rng_mix(s1) % 131073 - 65536;
    let s2 = rng_step(s1);
    let y = rng_mix(s2) % 131073 - 65536;
    let s3 = rng_step(s2);
    let z = rng_mix(s3) % 131073 - 65536;
    let s4 = rng_step(s3);
    let u = rng_mix(s4) % 65537;
    v3_scale(v3_norm(V3 { x, y, z }), u as int)
}

/// A pseudo-random point in the unit ball, as a pure function of the
/// generator state; the generator advances by exactly four draws.
pub fn random_in_unit_sphere(rng: &mut RngState) -> (r: Vec3)
    ensures
        r@ == sample_in_unit_sphere_spec(old(rng)@),
        final(rng)@ == rng_skip(old(rng)@, 4),
        in_bound(r@, 65536),
{
    let x = (rng.next_below(131073) as i64) - 65536;
    let y = (rng.next_below(131073) as i64) - 65536;
    let z = (rng.next_below(131073) as i64) - 65536;
    let u = rng.next_below(65537) as i64;
    let v = Vec3 { x, y, z };
    let uv = v.normalize();
    proof {
        crate::vec3::lemma_scale_component(uv@.x, u as int, 65536, 65536);
        crate::vec3::lemma_scale_component(uv@.y, u as int, 65536, 65536);
        crate::vec3::lemma_scale_component(uv@.z, u as int, 65536, 65536);
        assert(rng_skip(old(rng)@, 0) == old(rng)@);
        assert(rng_skip(old(rng)@, 1) == rng_step(rng_skip(old(rng)@, 0)));
        assert(rng_skip(old(rng)@, 2) == rng_step(rng_skip(old(rng)@, 1)));
        assert(rng_skip(old(rng)@, 3) == rng_step(rng_skip(old(rng)@, 2)));
        assert(rng_skip(old(rng)@, 4) == rng_step(rng_skip(old(rng)@, 3)));
    }
    uv.scale(u)
}

} // verus!
