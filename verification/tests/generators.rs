use jp8_core::benjolin::{clock_rungler, rungler_dac, RUNGLER_SEED};
use jp8_core::bubble::rand_step;
use jp8_core::oscillator::{lcg_next, xorshift32, NoiseGen, Waveform};

#[test]
fn noise_seed_zero_becomes_one() {
    let mut g = NoiseGen::new(0);
    assert_eq!(g.next(), xorshift32(1));
}

#[test]
fn xorshift_known_values() {
    // 1 -> 1 ^ (1 << 13) = 0x2001; ^ (>> 17) unchanged; ^ (<< 5) = 0x42021
    assert_eq!(xorshift32(1), 0x0004_2021);
    assert_eq!(xorshift32(0), 0);
}

#[test]
fn noise_never_zero() {
    let mut g = NoiseGen::new(42);
    for _ in 0..100_000 {
        assert_ne!(g.next(), 0);
    }
}

#[test]
fn noise_bounded_as_samples() {
    let mut g = NoiseGen::new(7);
    for _ in 0..10_000 {
        let s = (g.next() as f32 / u32::MAX as f32) * 2.0 - 1.0;
        assert!((-1.0..=1.0).contains(&s));
    }
}

#[test]
fn lcg_known_values() {
    assert_eq!(lcg_next(0), 12345);
    assert_eq!(lcg_next(1), 1103527590);
    assert_eq!(lcg_next(48271), 48271u32.wrapping_mul(1103515245).wrapping_add(12345));
}

#[test]
fn rand_step_matches_generator() {
    let (s, v) = rand_step(48271);
    assert_eq!(s, lcg_next(48271));
    assert_eq!(v, (s >> 16) & 0x7FFF);
    assert!(v < 32768);
}

#[test]
fn rungler_clock_shifts_in_xor() {
    // bit 5 of the seed is 1: input 1 gives 0, input 0 gives 1.
    assert_eq!(clock_rungler(RUNGLER_SEED, true), 0b0110_1010);
    assert_eq!(clock_rungler(RUNGLER_SEED, false), 0b0110_1011);
    assert_eq!(clock_rungler(0, true), 1);
    assert_eq!(clock_rungler(0, false), 0);
}

#[test]
fn rungler_dac_reads_bits_0_3_6() {
    assert_eq!(rungler_dac(0), 0);
    assert_eq!(rungler_dac(0b0000_0001), 1);
    assert_eq!(rungler_dac(0b0000_1000), 2);
    assert_eq!(rungler_dac(0b0100_0000), 4);
    assert_eq!(rungler_dac(0xFF), 7);
    assert_eq!(rungler_dac(RUNGLER_SEED), 1 + 0 + 0);
    for r in 0..=255u8 {
        assert!(rungler_dac(r) < 8);
    }
}

#[test]
fn waveform_copy_eq() {
    let w = Waveform::Pulse;
    let v = w;
    assert_eq!(w, v);
    assert_ne!(w, Waveform::Saw);
}
