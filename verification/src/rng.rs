//! A small deterministic pseudo-random generator (the SplitMix64 mixer).
//!
//! The body factory takes the generator as an explicit argument, so a
//! caller can seed it and reproduce a whole simulation; the ambient seed
//! of [`SimRng::from_entropy`] is the only nondeterministic entry.

use vstd::prelude::*;
use crate::fx::{Fx, SCALE};

verus! {

/// Addition modulo 2^64.
pub open spec fn wadd64(a: u64, b: u64) -> u64 {
    (((a as int) + (b as int)) % 0x1_0000_0000_0000_0000) as u64
}

/// Multiplication modulo 2^64.
pub open spec fn wmul64(a: u64, b: u64) -> u64 {
    (((a as int) * (b as int)) % 0x1_0000_0000_0000_0000) as u64
}

fn wadd64_exec(a: u64, b: u64) -> (r: u64)
    ensures
        r == wadd64(a, b),
{
    (((a as u128) + (b as u128)) % 0x1_0000_0000_0000_0000) as u64
}

fn wmul64_exec(a: u64, b: u64) -> (r: u64)
    ensures
        r == wmul64(a, b),
{
    proof {
        assert((a as int) * (b as int) <= 0xffff_ffff_ffff_ffff * 0xffff_ffff_ffff_ffff)
            by (nonlinear_arith)
            requires
                0 <= a as int <= 0xffff_ffff_ffff_ffff,
                0 <= b as int <= 0xffff_ffff_ffff_ffff,
        ;
        assert((a as int) * (b as int) >= 0) by (nonlinear_arith)
            requires
                0 <= a as int,
                0 <= b as int,
        ;
    }
    (((a as u128) * (b as u128)) % 0x1_0000_0000_0000_0000) as u64
}

/// The generator state after one draw.
pub open spec fn rng_step_s(s: u64) -> u64 {
    wadd64(s, 0x9E37_79B9_7F4A_7C15)
}

/// The 64-bit output of one draw from state `s`.
pub open spec fn rng_next_s(s: u64) -> u64 {
    let z0 = rng_step_s(s);
    let z1 = wmul64(z0 ^ (z0 >> 30), 0xBF58_476D_1CE4_E5B9);
    let z2 = wmul64(z1 ^ (z1 >> 27), 0x94D0_49BB_1331_11EB);
    z2 ^ (z2 >> 31)
}

/// The fixed-point unit draw (in `[0, 1)`) that one draw from state `s` yields.
pub open spec fn rng_unit_s(s: u64) -> int {
    (rng_next_s(s) as int) % (SCALE as int)
}

/// The generator state after `k` draws.
pub open spec fn rng_step_n(s: u64, k: nat) -> u64
    decreases k,
{
    if k == 0 {
        s
    } else {
        rng_step_s(rng_step_n(s, (k - 1) as nat))
    }
}

/// Drawing `a` then `b` times is drawing `a + b` times.
pub proof fn lemma_rng_step_n_add(s: u64, a: nat, b: nat)
    ensures
        rng_step_n(rng_step_n(s, a), b) == rng_step_n(s, a + b),
    decreases b,
{
    if b > 0 {
        lemma_rng_step_n_add(s, a, (b - 1) as nat);
    }
}

/// A deterministic pseudo-random generator: the SplitMix64 mixer.
#[derive(Clone, Copy, Debug, PartialEq, Eq, Structural)]
pub struct SimRng {
    pub state: u64,
}

impl SimRng {
    /// A generator with the given seed; the same seed reproduces the
    /// same stream of draws.
    pub fn new(seed: u64) -> (r: SimRng)
        ensures
            r.state == seed,
    {
        SimRng { state: seed }
    }

    /// One 64-bit draw; advances the state.
    pub fn next_u64(&mut self) -> (r: u64)
        ensures
            final(self).state == rng_step_s(old(self).state),
            r == rng_next_s(old(self).state),
    {
        self.state = wadd64_exec(self.state, 0x9E37_79B9_7F4A_7C15);
        let z0 = self.state;
        let z1 = wmul64_exec(z0 ^ (z0 >> 30), 0xBF58_476D_1CE4_E5B9);
        let z2 = wmul64_exec(z1 ^ (z1 >> 27), 0x94D0_49BB_1331_11EB);
        z2 ^ (z2 >> 31)
    }

    /// One fixed-point draw in the unit interval `[0, 1)`; advances the state.
    pub fn next_unit(&mut self) -> (r: Fx)
        ensures
            final(self).state == rng_step_s(old(self).state),
            r@ == rng_unit_s(old(self).state),
            0 <= r@ < SCALE as int,
    {
        let bits = self.next_u64();
        Fx { raw: (bits % (SCALE as u64)) as i64 }
    }
}

/// Relies on `rand::random` for a process-ambient 64-bit seed; nothing is
/// promised of the value drawn.
pub assume_specification<T>[ rand::random::<T> ]() -> (r: T)
    where
        rand::distributions::Standard: rand::distributions::Distribution<T>,
;

impl SimRng {
    /// A generator seeded from the process-wide random source.
    pub fn from_entropy() -> SimRng {
        SimRng { state: rand::random::<u64>() }
    }
}

} // verus!
