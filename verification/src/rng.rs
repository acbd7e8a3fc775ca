//! The renderer's uniform random source: a 64-bit linear congruential
//! generator threaded explicitly through every sampling call.
//!
//! Rendering is deterministic given the seed, which is what makes the Monte
//! Carlo pipeline specifiable: every contract downstream is stated as an
//! exact function of the generator state it consumes. A fresh seed for
//! non-reproducible renders is drawn once, at scene construction, from the
//! process's entropy source.

use vstd::prelude::*;
use crate::fixed::SCALE;

verus! {

/// Multiplier of the linear congruential step (Knuth's MMIX constant).
pub const LCG_MUL: u64 = 0x5851_F42D_4C95_7F2D;

/// Increment of the linear congruential step (Knuth's MMIX constant).
pub const LCG_ADD: u64 = 0x1405_7B7E_F767_814F;

/// The generator state after one linear congruential step.
pub open spec fn next_state(s: u64) -> u64 {
    (((LCG_MUL as int) * (s as int) + LCG_ADD as int) % 0x1_0000_0000_0000_0000) as u64
}

/// The fixed-point unit draw read off a generator state: its top sixteen
/// bits, a value in `[0, SCALE)` standing for a real in `[0, 1)`.
pub open spec fn unit_of(s: u64) -> int {
    (s as int) / 0x1_0000_0000_0000
}

/// A draw is always within `[0, SCALE)`.
pub proof fn lemma_unit_of_range(s: u64)
    ensures
        0 <= unit_of(s) < SCALE,
{
}

/// The deterministic pseudo-random generator the renderer samples from.
#[derive(Clone, Copy, Debug, PartialEq, Eq, Structural)]
pub struct Rng {
    pub state: u64,
}

impl Rng {
    /// A generator starting from the given seed.
    pub fn new(seed: u64) -> (r: Rng)
        ensures
            r.state == seed,
    {
        Rng { state: seed }
    }

    /// Advance the generator and read a fixed-point value in `[0, SCALE)`,
    /// standing for a uniform real in `[0, 1)`.
    pub fn next_unit(&mut self) -> (r: i64)
        ensures
            final(self).state == next_state(old(self).state),
            r as int == unit_of(final(self).state),
            0 <= r < SCALE,
    {
        assert((self.state as int) * (LCG_MUL as int) <= 0xFFFF_FFFF_FFFF_FFFFu64 as int
            * 0x5851_F42D_4C95_7F2Du64 as int) by (nonlinear_arith)
            requires
                self.state <= 0xFFFF_FFFF_FFFF_FFFFu64,
        ;
        let wide: u128 = (self.state as u128) * (LCG_MUL as u128) + (LCG_ADD as u128);
        self.state = (wide % 0x1_0000_0000_0000_0000) as u64;
        let top: u64 = self.state / 0x1_0000_0000_0000;
        top as i64
    }
}

/// Relies on `rand::random`: a 64-bit seed from the process entropy source.
/// Nothing is promised of its value; every caller must work for any seed.
#[verifier::external_body]
pub(crate) fn entropy_seed() -> u64 {
    rand::random::<u64>()
}

} // verus!
