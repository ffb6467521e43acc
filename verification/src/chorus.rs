//! Stereo BBD chorus mode selection.

use vstd::prelude::*;

verus! {

/// Chorus mode.
#[derive(Clone, Copy, PartialEq, Eq, Debug, Structural)]
pub enum ChorusMode {
    Off,
    /// About 0.513 Hz, 1.5 ms depth.
    Mode1,
    /// About 0.863 Hz, 2.3 ms depth.
    Mode2,
    /// Both: the classic JP-8 sound.
    Mode12,
}

/// Decodes the parameter code of the chorus mode: 0 = off, 1 = I, 2 = II;
/// any other code selects I + II.
pub open spec fn chorus_mode_of_code(code: u8) -> ChorusMode {
    if code == 0 {
        ChorusMode::Off
    } else if code == 1 {
        ChorusMode::Mode1
    } else if code == 2 {
        ChorusMode::Mode2
    } else {
        ChorusMode::Mode12
    }
}

impl ChorusMode {
    /// Decodes the parameter code of the chorus mode.
    pub fn from_code(code: u8) -> (m: ChorusMode)
        ensures
            m == chorus_mode_of_code(code),
            code == 0 ==> m == ChorusMode::Off,
            code == 1 ==> m == ChorusMode::Mode1,
            code == 2 ==> m == ChorusMode::Mode2,
            code > 2 ==> m == ChorusMode::Mode12,
    {
        match code {
            0 => ChorusMode::Off,
            1 => ChorusMode::Mode1,
            2 => ChorusMode::Mode2,
            _ => ChorusMode::Mode12,
        }
    }
}

} // verus!
