//! Random numbers of the bubble oscillator.

use vstd::prelude::*;
use crate::oscillator::{lcg_next, lcg_spec};

verus! {

/// Number of distinct values `rand_step` draws: a sample in [0, 1) is the
/// value divided by this.
pub const RAND_RESOLUTION: u32 = 32768;

/// Draws a 15-bit random value: advances the linear congruential generator
/// and takes bits 16 to 30 of the new state. Returns (new state, value).
pub fn rand_step(state: u32) -> (r: (u32, u32))
    ensures
        r.0 == lcg_spec(state),
        r.1 == (r.0 / 65536) % 32768,
        r.1 < RAND_RESOLUTION,
{
    let s = lcg_next(state);
    let v = (s >> 16u32) & 0x7FFF;
    assert(v == (s / 65536) % 32768) by (bit_vector)
        requires
            v == (s >> 16u32) & 0x7FFF,
    ;
    (s, v)
}

} // verus!
