use jp8_core::arpeggiator::{ArpMode, Arpeggiator};

fn steps(a: &mut Arpeggiator, n: usize) -> Vec<u8> {
    (0..n).map(|_| a.tick(true).0).collect()
}

fn arp(mode: ArpMode, range: u8, notes: &[u8]) -> Arpeggiator {
    let mut a = Arpeggiator::new();
    a.mode = mode;
    a.set_range_octaves(range);
    for &n in notes {
        assert!(a.note_on(n));
    }
    a
}

#[test]
fn off_mode_passthrough() {
    let mut a = Arpeggiator::new();
    assert!(!a.note_on(60));
    assert!(!a.note_off(60));
    assert!(!a.is_active());
    assert_eq!(a.tick(true), (0, 0));
}

#[test]
fn up_ascending() {
    let mut a = arp(ArpMode::Up, 1, &[60, 64, 67]);
    assert_eq!(steps(&mut a, 7), vec![60, 64, 67, 60, 64, 67, 60]);
}

#[test]
fn down_descending() {
    let mut a = arp(ArpMode::Down, 1, &[60, 64, 67]);
    assert_eq!(steps(&mut a, 7), vec![67, 64, 60, 67, 64, 60, 67]);
}

#[test]
fn updown_bounces() {
    let mut a = arp(ArpMode::UpDown, 1, &[60, 64, 67]);
    assert_eq!(steps(&mut a, 9), vec![60, 64, 67, 67, 64, 60, 60, 64, 67]);
}

#[test]
fn range_2_octaves() {
    let mut a = arp(ArpMode::Up, 2, &[60]);
    assert_eq!(steps(&mut a, 4), vec![60, 72, 60, 72]);
    let mut d = arp(ArpMode::Down, 2, &[60, 64]);
    assert_eq!(steps(&mut d, 4), vec![76, 72, 64, 60]);
}

#[test]
fn add_note_sorted() {
    let mut a = arp(ArpMode::Up, 1, &[67, 60, 72, 64]);
    assert_eq!(steps(&mut a, 4), vec![60, 64, 67, 72]);
}

#[test]
fn remove_note_shifts() {
    let mut a = arp(ArpMode::Up, 1, &[60, 64, 67, 72]);
    assert!(a.note_off(64));
    assert!(a.note_off(99));
    assert_eq!(steps(&mut a, 3), vec![60, 67, 72]);
}

#[test]
fn duplicate_ignored() {
    let mut a = arp(ArpMode::Up, 1, &[60, 60, 64, 60]);
    assert_eq!(steps(&mut a, 4), vec![60, 64, 60, 64]);
}

#[test]
fn max_16_held_notes() {
    let notes: Vec<u8> = (40..57).collect();
    let mut a = arp(ArpMode::Up, 1, &notes);
    let seq = steps(&mut a, 17);
    let expected: Vec<u8> = (40..56).chain(std::iter::once(40)).collect();
    assert_eq!(seq, expected);
}

#[test]
fn all_off_resets() {
    let mut a = arp(ArpMode::Up, 1, &[60, 64]);
    assert_eq!(a.tick(true), (60, 0));
    a.all_off();
    assert!(!a.is_active());
    assert_eq!(a.tick(true), (0, 0));
    assert!(a.note_on(50));
    assert_eq!(a.tick(true), (50, 0));
}

#[test]
fn is_active_requires_notes_and_mode() {
    let mut a = Arpeggiator::new();
    assert!(!a.is_active());
    a.mode = ArpMode::Up;
    assert!(!a.is_active());
    a.note_on(60);
    assert!(a.is_active());
    a.mode = ArpMode::Off;
    assert!(!a.is_active());
}

#[test]
fn tick_inactive_returns_zero() {
    let mut a = arp(ArpMode::Up, 1, &[]);
    assert_eq!(a.tick(true), (0, 0));
    assert_eq!(a.tick(false), (0, 0));
}

#[test]
fn tick_releases_previous_step() {
    let mut a = arp(ArpMode::Up, 1, &[60, 64]);
    assert_eq!(a.tick(true), (60, 0));
    assert_eq!(a.tick(false), (0, 0));
    assert_eq!(a.tick(true), (64, 60));
    a.note_off(60);
    a.note_off(64);
    // Nothing held: the sounding note is released once.
    assert_eq!(a.tick(true), (0, 64));
    assert_eq!(a.tick(true), (0, 0));
}

#[test]
fn note_saturating_add() {
    let mut a = arp(ArpMode::Up, 4, &[100, 120]);
    assert_eq!(steps(&mut a, 8), vec![100, 120, 112, 127, 124, 127, 127, 127]);
}

#[test]
fn range_change_rebuilds_sequence() {
    let mut a = arp(ArpMode::Down, 4, &[60, 64]);
    assert_eq!(steps(&mut a, 5), vec![100, 96, 88, 84, 76]);
    // Shrinking the range while keys are held rebuilds the sequence at
    // once: position 5 lies past the new end, so the pass starts over.
    a.set_range_octaves(1);
    assert_eq!(steps(&mut a, 3), vec![64, 60, 64]);
    // Growing it keeps the position inside the longer pass.
    a.set_range_octaves(2);
    assert_eq!(steps(&mut a, 4), vec![72, 64, 60, 76]);
}

#[test]
fn wide_range_caps_notes() {
    let mut a = arp(ArpMode::Up, 30, &[60]);
    let notes = steps(&mut a, 30);
    assert_eq!(&notes[..3], &[60, 72, 84]);
    assert!(notes[6..].iter().all(|&n| n == 127));
    let mut d = arp(ArpMode::Down, 30, &[60]);
    assert_eq!(steps(&mut d, 1), vec![127]);
}

#[test]
fn down_pass_is_up_pass_reversed() {
    for range in 1u8..=4 {
        let notes = [60u8, 64, 67];
        let n = notes.len() * range as usize;
        let mut up = arp(ArpMode::Up, range, &notes);
        let mut down = arp(ArpMode::Down, range, &notes);
        let up_pass = steps(&mut up, n);
        let mut down_pass = steps(&mut down, n);
        down_pass.reverse();
        assert_eq!(down_pass, up_pass);
    }
}
