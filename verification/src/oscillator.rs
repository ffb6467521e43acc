//! Oscillator waveform selection and the white-noise generator.

use vstd::prelude::*;

verus! {

/// Waveform of a PolyBLEP oscillator.
#[derive(Clone, Copy, PartialEq, Eq, Debug, Structural)]
pub enum Waveform {
    Saw,
    Pulse,
    /// Pulse with the pulse width held at one half.
    Square,
}

/// One xorshift32 step: shift-xor by 13 left, 17 right, 5 left.
pub open spec fn xorshift32_spec(x: u32) -> u32 {
    let a = x ^ (x << 13u32);
    let b = a ^ (a >> 17u32);
    b ^ (b << 5u32)
}

/// One xorshift32 step (the generator behind white noise and sample-and-hold).
pub fn xorshift32(x: u32) -> (r: u32)
    ensures
        r == xorshift32_spec(x),
        x != 0 ==> r != 0,
{
    let a = x ^ (x << 13u32);
    let b = a ^ (a >> 17u32);
    let r = b ^ (b << 5u32);
    proof {
        lemma_xorshift32_nonzero(x);
    }
    r
}

/// A xorshift32 step never maps a nonzero state to zero, so a generator
/// seeded with a nonzero state never gets stuck at zero.
pub proof fn lemma_xorshift32_nonzero(x: u32)
    ensures
        x != 0 ==> xorshift32_spec(x) != 0,
{
    assert(x != 0 ==> ({
        let a = x ^ (x << 13u32);
        let b = a ^ (a >> 17u32);
        b ^ (b << 5u32)
    }) != 0) by (bit_vector);
}

/// Undoes one xorshift32 step, stage by stage from the last: the left shift
/// by 5 is undone by folding in every multiple of 5, the right shift by 17 by
/// one more fold (two shifts already pass the word's end), and the left shift
/// by 13 by folding in 13 and 26.
pub open spec fn xorshift32_undo(y: u32) -> u32 {
    let b = y ^ (y << 5u32) ^ (y << 10u32) ^ (y << 15u32) ^ (y << 20u32) ^ (y << 25u32) ^ (y
        << 30u32);
    let a = b ^ (b >> 17u32);
    a ^ (a << 13u32) ^ (a << 26u32)
}

/// A xorshift32 step is a permutation of the 32-bit states, and
/// `xorshift32_undo` is its inverse on both sides: no two states step to the
/// same state, and every state has exactly one predecessor.
pub proof fn lemma_xorshift32_permutes(x: u32, y: u32)
    ensures
        xorshift32_undo(xorshift32_spec(x)) == x,
        xorshift32_spec(xorshift32_undo(y)) == y,
{
    assert(({
        let a = x ^ (x << 13u32);
        let b = a ^ (a >> 17u32);
        let z = b ^ (b << 5u32);
        let b2 = z ^ (z << 5u32) ^ (z << 10u32) ^ (z << 15u32) ^ (z << 20u32) ^ (z << 25u32) ^ (z
            << 30u32);
        let a2 = b2 ^ (b2 >> 17u32);
        a2 ^ (a2 << 13u32) ^ (a2 << 26u32)
    }) == x) by (bit_vector);
    assert(({
        let b = y ^ (y << 5u32) ^ (y << 10u32) ^ (y << 15u32) ^ (y << 20u32) ^ (y << 25u32) ^ (y
            << 30u32);
        let a = b ^ (b >> 17u32);
        let w = a ^ (a << 13u32) ^ (a << 26u32);
        let a2 = w ^ (w << 13u32);
        let b2 = a2 ^ (a2 >> 17u32);
        b2 ^ (b2 << 5u32)
    }) == y) by (bit_vector);
}

/// Multiplier of the linear congruential generator.
pub const LCG_MULTIPLIER: u32 = 1103515245;

/// Increment of the linear congruential generator.
pub const LCG_INCREMENT: u32 = 12345;

/// One step of the linear congruential generator, modulo 2^32.
pub open spec fn lcg_spec(x: u32) -> u32 {
    ((x * LCG_MULTIPLIER + LCG_INCREMENT) % 0x1_0000_0000) as u32
}

/// One step of the linear congruential generator (used for oscillator drift
/// and bubble spawning).
pub fn lcg_next(x: u32) -> (r: u32)
    ensures
        r == lcg_spec(x),
{
    let m = x.wrapping_mul(LCG_MULTIPLIER);
    let r = m.wrapping_add(LCG_INCREMENT);
    proof {
        let big = x * LCG_MULTIPLIER;
        assert(m == big % 0x1_0000_0000);
        vstd::arithmetic::div_mod::lemma_add_mod_noop(big, LCG_INCREMENT as int, 0x1_0000_0000);
        vstd::arithmetic::div_mod::lemma_mod_twice(big, 0x1_0000_0000);
        vstd::arithmetic::div_mod::lemma_small_mod(LCG_INCREMENT as nat, 0x1_0000_0000);
        if m + LCG_INCREMENT > u32::MAX {
            vstd::arithmetic::div_mod::lemma_fundamental_div_mod_converse(
                m + LCG_INCREMENT,
                0x1_0000_0000,
                1,
                m + LCG_INCREMENT - 0x1_0000_0000,
            );
        } else {
            vstd::arithmetic::div_mod::lemma_small_mod((m + LCG_INCREMENT) as nat, 0x1_0000_0000);
        }
    }
    r
}

/// The linear congruential generator steps by the multiplier: one more in
/// the state gives 1103515245 more in the next state, modulo 2^32, from 12345
/// for state 0; and the low two bits of the state count up by one each step.
pub proof fn lemma_lcg_structure(x: u32)
    ensures
        lcg_spec(0) == 12345,
        x < u32::MAX ==> lcg_spec((x + 1) as u32) == (lcg_spec(x) + 1103515245) % 0x1_0000_0000,
        lcg_spec(x) % 4 == (x + 1) % 4,
{
    let m: int = 0x1_0000_0000;
    let big = x * 1103515245int + 12345;
    if x < u32::MAX {
        assert((x + 1) * 1103515245int + 12345 == big + 1103515245) by (nonlinear_arith)
            requires
                big == x * 1103515245int + 12345,
        ;
        vstd::arithmetic::div_mod::lemma_add_mod_noop(big, 1103515245, m);
        vstd::arithmetic::div_mod::lemma_small_mod(1103515245, m as nat);
    }
    assert(big == 4 * (x * 275878811int + 3086) + (x + 1)) by (nonlinear_arith)
        requires
            big == x * 1103515245int + 12345,
    ;
    vstd::arithmetic::div_mod::lemma_mod_mod(big, 4, 0x4000_0000);
    vstd::arithmetic::div_mod::lemma_mod_multiples_vanish(x * 275878811int + 3086, x + 1, 4);
}

/// White noise generator (no allocation). Its state is never zero, so it
/// never locks up.
pub struct NoiseGen {
    state: u32,
}

impl NoiseGen {
    /// The current generator state.
    pub closed spec fn state(&self) -> u32 {
        self.state
    }

    #[verifier::type_invariant]
    spec fn state_nonzero(&self) -> bool {
        self.state != 0
    }

    /// Seeds the generator; a zero seed is replaced by one.
    pub fn new(seed: u32) -> (g: Self)
        ensures
            g.state() == if seed == 0 {
                1u32
            } else {
                seed
            },
    {
        NoiseGen { state: if seed == 0 { 1 } else { seed } }
    }

    /// Advances the generator by one xorshift32 step and returns the new state.
    /// The state spans the whole `u32` range; a sample in [-1, 1] is
    /// `state / u32::MAX * 2 - 1`.
    pub fn next(&mut self) -> (r: u32)
        ensures
            r == xorshift32_spec(old(self).state()),
            final(self).state() == r,
            r != 0,
    {
        proof {
            use_type_invariant(&*self);
        }
        self.state = xorshift32(self.state);
        self.state
    }
}

} // verus!
