//! LFO waveshape selection.

use vstd::prelude::*;

verus! {

/// LFO waveshape.
#[derive(Clone, Copy, PartialEq, Eq, Debug, Structural)]
pub enum LfoWave {
    Sine,
    Triangle,
    Saw,
    Square,
    SampleAndHold,
}

/// Decodes the parameter code of the LFO waveshape: 0 = sine, 1 = triangle,
/// 2 = saw, 3 = square, 4 = sample and hold; any other code gives a sine.
pub open spec fn lfo_wave_of_code(code: u8) -> LfoWave {
    if code == 1 {
        LfoWave::Triangle
    } else if code == 2 {
        LfoWave::Saw
    } else if code == 3 {
        LfoWave::Square
    } else if code == 4 {
        LfoWave::SampleAndHold
    } else {
        LfoWave::Sine
    }
}

impl LfoWave {
    /// Decodes the parameter code of the LFO waveshape.
    pub fn from_code(code: u8) -> (w: LfoWave)
        ensures
            w == lfo_wave_of_code(code),
            code == 0 ==> w == LfoWave::Sine,
            code == 1 ==> w == LfoWave::Triangle,
            code == 2 ==> w == LfoWave::Saw,
            code == 3 ==> w == LfoWave::Square,
            code == 4 ==> w == LfoWave::SampleAndHold,
            code > 4 ==> w == LfoWave::Sine,
    {
        match code {
            0 => LfoWave::Sine,
            1 => LfoWave::Triangle,
            2 => LfoWave::Saw,
            3 => LfoWave::Square,
            4 => LfoWave::SampleAndHold,
            _ => LfoWave::Sine,
        }
    }
}

} // verus!
