//! Parameter block layout and decoding of its integer-valued slots.

use vstd::prelude::*;

verus! {

/// Number of `f32` slots in the shared parameter block.
pub const PARAM_COUNT: usize = 68;

/// Lowest oscillator range (octaves, 16').
pub const MIN_OCTAVE_RANGE: i8 = -2;

/// Highest oscillator range (octaves, 2').
pub const MAX_OCTAVE_RANGE: i8 = 2;

/// Fewest octaves the arpeggiator spans.
pub const MIN_ARP_RANGE: u8 = 1;

/// Most octaves the arpeggiator spans.
pub const MAX_ARP_RANGE: u8 = 4;

/// An oscillator range held to -2..=2 octaves.
pub fn decode_octave_range(raw: i8) -> (r: i8)
    ensures
        r == if raw < MIN_OCTAVE_RANGE {
            MIN_OCTAVE_RANGE
        } else if raw > MAX_OCTAVE_RANGE {
            MAX_OCTAVE_RANGE
        } else {
            raw
        },
        MIN_OCTAVE_RANGE <= r <= MAX_OCTAVE_RANGE,
{
    if raw < MIN_OCTAVE_RANGE {
        MIN_OCTAVE_RANGE
    } else if raw > MAX_OCTAVE_RANGE {
        MAX_OCTAVE_RANGE
    } else {
        raw
    }
}

/// A byte-valued parameter code held to `lo..=hi` (mode selectors, counts,
/// on/off switches, the arpeggiator range).
pub fn clamp_code(raw: u8, lo: u8, hi: u8) -> (r: u8)
    requires
        lo <= hi,
    ensures
        r == if raw < lo {
            lo
        } else if raw > hi {
            hi
        } else {
            raw
        },
        lo <= r <= hi,
{
    if raw < lo {
        lo
    } else if raw > hi {
        hi
    } else {
        raw
    }
}

} // verus!
