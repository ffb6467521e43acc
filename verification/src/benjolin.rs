//! The rungler of the Benjolin chaos modulator: an 8-bit shift register
//! clocked by oscillator 1, fed by oscillator 2 with XOR feedback from bit 5,
//! and read by a 3-bit DAC on bits 0, 3 and 6.

use vstd::prelude::*;

verus! {

/// Initial (nonzero) content of the shift register.
pub const RUNGLER_SEED: u8 = 0b1011_0101;

/// Number of levels of the 3-bit DAC.
pub const DAC_LEVELS: u8 = 8;

/// The register after one clock: shifted left by one, with the input bit
/// XOR bit 5 of the old register entering at bit 0.
pub open spec fn rungler_clocked(register: u8, input: bool) -> u8 {
    ((2 * register + ((if input { 1int } else { 0int }) + register / 32) % 2) % 256) as u8
}

/// The 3-bit DAC reading of the register: bit 0, bit 3 and bit 6 as the
/// value's bits 0, 1 and 2.
pub open spec fn rungler_dac_value(register: u8) -> u8 {
    (register % 2 + 2 * ((register / 8) % 2) + 4 * ((register / 64) % 2)) as u8
}

/// Clocks the rungler once. `input` is oscillator 2's polarity (true on its
/// positive half).
pub fn clock_rungler(register: u8, input: bool) -> (r: u8)
    ensures
        r == rungler_clocked(register, input),
{
    let input_bit: u8 = if input { 1 } else { 0 };
    // XOR feedback from bit 5
    let feedback = (register >> 5u8) & 1;
    let new_bit = input_bit ^ feedback;
    // Shift left, insert new bit at LSB
    let r = (register << 1u8) | new_bit;
    assert(r == ((2 * register + (input_bit + register / 32) % 2) % 256) as u8) by (bit_vector)
        requires
            input_bit <= 1,
            feedback == (register >> 5u8) & 1,
            new_bit == input_bit ^ feedback,
            r == (register << 1u8) | new_bit,
    ;
    r
}

/// Reads the 3-bit DAC (0 to 7).
pub fn rungler_dac(register: u8) -> (r: u8)
    ensures
        r == rungler_dac_value(register),
        r < DAC_LEVELS,
{
    let bit0 = register & 1;
    let bit3 = (register >> 3u8) & 1;
    let bit6 = (register >> 6u8) & 1;
    let r = bit0 | (bit3 << 1u8) | (bit6 << 2u8);
    assert(r == (register % 2 + 2 * ((register / 8) % 2) + 4 * ((register / 64) % 2)) as u8 && r
        < 8) by (bit_vector)
        requires
            bit0 == register & 1,
            bit3 == (register >> 3u8) & 1,
            bit6 == (register >> 6u8) & 1,
            r == bit0 | (bit3 << 1u8) | (bit6 << 2u8),
    ;
    r
}

/// Clocking the rungler shifts the register up by one bit: bits 1 to 7 of
/// the new register are bits 0 to 6 of the old one, and bit 0 is the input
/// bit XOR bit 5 of the old register.
pub proof fn lemma_rungler_clock_bits(register: u8, input: bool)
    ensures
        rungler_clocked(register, input) >> 1u8 == register & 0x7Fu8,
        rungler_clocked(register, input) & 1u8 == (if input { 1u8 } else { 0u8 }) ^ ((register >> 5u8)
            & 1u8),
{
    let ib: u8 = if input { 1 } else { 0 };
    let c = rungler_clocked(register, input);
    assert(c == ((2 * register + (ib + register / 32) % 2) % 256) as u8);
    assert(c >> 1u8 == register & 0x7Fu8 && c & 1u8 == ib ^ ((register >> 5u8) & 1u8)) by (bit_vector)
        requires
            ib <= 1,
            c == ((2 * register + (ib + register / 32) % 2) % 256) as u8,
    ;
}

/// The DAC reads three taps of the register: bit 0 of the reading is bit 0
/// of the register, bit 1 is bit 3, bit 2 is bit 6, and nothing else.
pub proof fn lemma_rungler_dac_bits(register: u8)
    ensures
        rungler_dac_value(register) & 1u8 == register & 1u8,
        (rungler_dac_value(register) >> 1u8) & 1u8 == (register >> 3u8) & 1u8,
        (rungler_dac_value(register) >> 2u8) & 1u8 == (register >> 6u8) & 1u8,
        rungler_dac_value(register) >> 3u8 == 0,
{
    let v = rungler_dac_value(register);
    assert(v == (register % 2 + 2 * ((register / 8) % 2) + 4 * ((register / 64) % 2)) as u8);
    assert(v & 1u8 == register & 1u8 && (v >> 1u8) & 1u8 == (register >> 3u8) & 1u8 && (v >> 2u8)
        & 1u8 == (register >> 6u8) & 1u8 && v >> 3u8 == 0) by (bit_vector)
        requires
            v == (register % 2 + 2 * ((register / 8) % 2) + 4 * ((register / 64) % 2)) as u8,
    ;
}

} // verus!
