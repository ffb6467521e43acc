//! Mode-bank configuration of the modal resonator.

use vstd::prelude::*;

verus! {

/// Most biquad modes in the bank.
pub const MAX_MODES: usize = 32;

/// Fewest modes a configuration uses.
pub const MIN_MODES: usize = 4;

/// Number of body presets (metal bar, metal tube, glass, bell, wine glass).
pub const NUM_BODY_PRESETS: usize = 5;

/// The body preset a preset code selects: codes past the last preset select
/// the last one.
pub fn preset_index(body_preset: u8) -> (r: usize)
    ensures
        r == if body_preset >= NUM_BODY_PRESETS {
            (NUM_BODY_PRESETS - 1) as int
        } else {
            body_preset as int
        },
        r < NUM_BODY_PRESETS,
{
    let b = body_preset as usize;
    if b > NUM_BODY_PRESETS - 1 {
        NUM_BODY_PRESETS - 1
    } else {
        b
    }
}

/// `x` held to the interval [lo, hi].
pub open spec fn clamp_int(x: int, lo: int, hi: int) -> int {
    if x < lo {
        lo
    } else if x > hi {
        hi
    } else {
        x
    }
}

/// How many modes sound: the requested count held to [4, 32], and to the
/// preset's own number of modes.
pub fn active_mode_count(num_modes: u8, preset_modes: usize) -> (r: usize)
    ensures
        r == vstd::math::min(clamp_int(num_modes as int, MIN_MODES as int, MAX_MODES as int), preset_modes as int),
        r <= MAX_MODES,
        r <= preset_modes,
        preset_modes >= MIN_MODES ==> MIN_MODES <= r,
        MIN_MODES <= num_modes <= MAX_MODES && num_modes <= preset_modes ==> r == num_modes,
{
    let n = num_modes as usize;
    let clamped = if n < MIN_MODES {
        MIN_MODES
    } else if n > MAX_MODES {
        MAX_MODES
    } else {
        n
    };
    if clamped < preset_modes {
        clamped
    } else {
        preset_modes
    }
}

} // verus!
