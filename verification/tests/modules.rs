use jp8_core::arpeggiator::ArpMode;
use jp8_core::chorus::ChorusMode;
use jp8_core::lfo::LfoWave;
use jp8_core::modal::{active_mode_count, preset_index};
use jp8_core::waveguide::{wavetable_slot, WaveguideCursor, MAX_DELAY, MAX_WAVETABLE};

#[test]
fn mode_codes_decode() {
    assert_eq!(LfoWave::from_code(0), LfoWave::Sine);
    assert_eq!(LfoWave::from_code(3), LfoWave::Square);
    assert_eq!(LfoWave::from_code(4), LfoWave::SampleAndHold);
    assert_eq!(LfoWave::from_code(9), LfoWave::Sine);
    assert_eq!(ArpMode::from_code(2), ArpMode::Down);
    assert_eq!(ArpMode::from_code(3), ArpMode::UpDown);
    assert_eq!(ArpMode::from_code(7), ArpMode::Off);
    assert_eq!(ChorusMode::from_code(0), ChorusMode::Off);
    assert_eq!(ChorusMode::from_code(2), ChorusMode::Mode2);
    assert_eq!(ChorusMode::from_code(3), ChorusMode::Mode12);
    assert_eq!(ChorusMode::from_code(200), ChorusMode::Mode12);
}

#[test]
fn modal_configuration_counts() {
    assert_eq!(preset_index(0), 0);
    assert_eq!(preset_index(4), 4);
    assert_eq!(preset_index(9), 4);
    assert_eq!(active_mode_count(16, 32), 16);
    assert_eq!(active_mode_count(1, 32), 4);
    assert_eq!(active_mode_count(200, 32), 32);
    assert_eq!(active_mode_count(20, 8), 8);
}

#[test]
fn waveguide_pitch_period_clamped() {
    let mut c = WaveguideCursor::new();
    assert_eq!(c.delay_length(), 200);
    c.set_period(100);
    assert_eq!(c.delay_length(), 100);
    c.set_period(0);
    assert_eq!(c.delay_length(), 2);
    c.set_period(5000);
    assert_eq!(c.delay_length(), MAX_DELAY - 1);
}

#[test]
fn waveguide_playhead_walks_table_once() {
    let mut c = WaveguideCursor::new();
    assert_eq!(c.load_wavetable(3), 3);
    assert_eq!(c.next_excitation(), None);
    c.trigger();
    assert_eq!(c.next_excitation(), Some(0));
    assert_eq!(c.next_excitation(), Some(1));
    assert_eq!(c.next_excitation(), Some(2));
    assert_eq!(c.next_excitation(), None);
    assert_eq!(c.load_wavetable(100_000), MAX_WAVETABLE);
    assert_eq!(c.wavetable_len(), MAX_WAVETABLE);
}

#[test]
fn waveguide_trigger_without_table_stays_silent() {
    let mut c = WaveguideCursor::new();
    c.trigger();
    assert_eq!(c.next_excitation(), None);
    assert_eq!(c.next_fade(), Some(128));
    assert_eq!(c.next_fade(), Some(127));
}

#[test]
fn waveguide_fade_counts_down() {
    let mut c = WaveguideCursor::new();
    assert_eq!(c.next_fade(), None);
    c.trigger();
    let mut n = 0;
    while let Some(t) = c.next_fade() {
        assert_eq!(t, 128 - n);
        n += 1;
    }
    assert_eq!(n, 128);
}

#[test]
fn waveguide_delay_ring() {
    let mut c = WaveguideCursor::new();
    c.set_period(100);
    assert_eq!(c.write_index(), 0);
    assert_eq!(c.read_index(), MAX_DELAY - 100);
    for _ in 0..MAX_DELAY + 5 {
        let r = c.read_index();
        assert_eq!((r + 100) % MAX_DELAY, c.write_index());
        c.advance_write();
    }
    assert_eq!(c.write_index(), 5);
    c.reset();
    assert_eq!(c.write_index(), 0);
}

#[test]
fn wavetable_slots() {
    assert_eq!(wavetable_slot(0, 0), Some(0));
    assert_eq!(wavetable_slot(1, 0), Some(5));
    assert_eq!(wavetable_slot(5, 4), Some(29));
    assert_eq!(wavetable_slot(6, 0), None);
    assert_eq!(wavetable_slot(0, 5), None);
    let mut seen = std::collections::HashSet::new();
    for e in 0..6u8 {
        for b in 0..5u8 {
            assert!(seen.insert(wavetable_slot(e, b).unwrap()));
        }
    }
}
