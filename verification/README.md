# jp8-core

Control logic of a JP-8 style eight-voice synthesizer, written in Verus and
proved against its contracts.

`src/` is the verified library:

- `allocator` — voice assignment in the Poly8, Poly4, Unison and Solo modes:
  round-robin choice of a free voice, stealing of the quietest voice, release
  of every voice holding a note.
- `arpeggiator` — held keys (sorted, unique, at most 16) and the Up, Down and
  Up+Down sequences over 1 to 4 octaves; the caller's tempo clock says when a
  step is due.
- `envelope` — ADSR stage sequencing.
- `oscillator`, `bubble` — xorshift32 white noise and the linear
  congruential generator.
- `benjolin` — the rungler shift register and its 3-bit DAC.
- `waveguide` — playhead, crossfade counter, delay-line indices and the
  wavetable cache slots of the commuted waveguide.
- `lfo`, `chorus`, `modal`, `params` — decoding of the parameter block's
  integer-valued slots.

`app/` is ordinary Rust around it: the floating-point signal processing
(oscillators, filters, envelope levels, LFO, chorus, bubbles, waveguide,
modal bank, Benjolin oscillators, voices, engine), the FFT convolution and the
WebAssembly exports.
