//! Seeded noise: samples drawn from a permuted congruential generator and
//! held against a density. Both are IEEE-754 binary32 values carried by
//! their bit patterns; a sample is never negative, so unsigned order on the
//! bits is the order of the numbers.

use vstd::prelude::*;
use crate::cell::{flip, flipped};

verus! {

/// The bits of 1.0.
pub const ONE: u32 = 0x3F80_0000;

/// The bits of positive infinity: the largest pattern that is a
/// non-negative number. Above it lie the NaNs and everything negative.
pub const INFINITY: u32 = 0x7F80_0000;

/// The state and increment that `oorandom::Rand32::new` gives a generator
/// seeded with `seed`.
pub uninterp spec fn seeded_state(seed: u64) -> (u64, u64);

/// What `oorandom::Rand32::rand_float` does to a generator with the given
/// state and increment: the bits of the sample it returns, and the state
/// it leaves. The increment never changes.
pub uninterp spec fn float_draw(state: u64, inc: u64) -> (u32, u64);

/// The state of the generator `start` after `k` draws.
pub open spec fn state_after(start: (u64, u64), k: nat) -> u64
    decreases k,
{
    if k == 0 {
        start.0
    } else {
        float_draw(state_after(start, (k - 1) as nat), start.1).1
    }
}

/// The bits of draw number `k`, counted from 0, of the generator `start`.
pub open spec fn sample_at(start: (u64, u64), k: nat) -> u32 {
    float_draw(state_after(start, k), start.1).0
}

/// `sample < density` as numbers, for a sample that is not negative: the
/// density must itself be a non-negative number or infinity, and lie above
/// the sample. A NaN or negative density, -0.0 included, is above nothing.
pub open spec fn is_below(sample: u32, density: u32) -> bool {
    sample < density && density <= INFINITY
}

/// The cell byte after noise: bit 0 flipped where the sample lies below the
/// density.
pub open spec fn noised_byte(c: u8, sample: u32, density: u32) -> u8 {
    if is_below(sample, density) {
        flipped(c)
    } else {
        c
    }
}

/// Calls `oorandom::Rand32::new` and reads the generator's state back.
/// Claims only that the result is a function of the seed.
#[verifier::external_body]
pub(crate) fn seeded(seed: u64) -> (start: (u64, u64))
    ensures
        start == seeded_state(seed),
{
    oorandom::Rand32::new(seed).state()
}

/// Calls `oorandom::Rand32::rand_float` on a generator restored from its
/// state, and returns the sample's bits with the state left behind. Claims
/// that both are a function of the state, and that the sample lies in
/// [0, 1): the top 24 bits of a 32-bit draw scaled by 2^-24, which is exact
/// in binary32 and below 1.0.
#[verifier::external_body]
pub(crate) fn draw(state: u64, inc: u64) -> (r: (u32, u64))
    ensures
        r == float_draw(state, inc),
        r.0 < ONE,
{
    let mut generator = oorandom::Rand32::from_state((state, inc));
    let sample = generator.rand_float();
    (sample.to_bits(), generator.state().0)
}

/// One cell under noise: flips bit 0 of `c` where `sample` lies below
/// `density`.
pub fn noised(c: u8, sample: u32, density: u32) -> (r: u8)
    ensures
        r == noised_byte(c, sample, density),
{
    if sample < density && density <= INFINITY {
        flip(c)
    } else {
        c
    }
}

} // verus!
