//! Control logic of a JP-8 style polyphonic synthesizer: voice assignment,
//! the arpeggiator, envelope stage sequencing, the integer noise and
//! random-number generators, the Benjolin rungler register and the
//! parameter-code decoding used by the audio engine.

pub mod allocator;
pub mod arpeggiator;
pub mod benjolin;
pub mod bubble;
pub mod chorus;
pub mod envelope;
pub mod lfo;
pub mod modal;
pub mod oscillator;
pub mod params;
pub mod routing;
pub mod waveguide;
