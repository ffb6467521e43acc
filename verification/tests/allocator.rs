use jp8_core::allocator::{AssignMode, VoiceAllocator, LEVEL_KEY_CEILING, MAX_VOICES};

fn released_voices(a: &mut VoiceAllocator, note: u8) -> Vec<usize> {
    let mut released = [99usize; MAX_VOICES];
    let count = a.note_off(note, &mut released);
    released[..count].to_vec()
}

#[test]
fn poly8_allocates_sequentially() {
    let mut a = VoiceAllocator::new();
    let got: Vec<usize> = (60..68).map(|n| a.note_on(n)).collect();
    // Round robin starts after the last assigned voice (0).
    assert_eq!(got, vec![1, 2, 3, 4, 5, 6, 7, 0]);
    let mut sorted = got.clone();
    sorted.sort();
    assert_eq!(sorted, (0..8).collect::<Vec<usize>>());
}

#[test]
fn poly8_steals_lowest_env() {
    let mut a = VoiceAllocator::new();
    for n in 60..68 {
        a.note_on(n);
    }
    let levels = [0.9f32, 0.8, 0.7, 0.05, 0.6, 0.5, 0.4, 0.3];
    for (i, l) in levels.iter().enumerate() {
        a.update_env_level(i, l.to_bits());
    }
    assert_eq!(a.note_on(70), 3);
    // The stolen voice now holds the new note.
    assert_eq!(released_voices(&mut a, 70), vec![3]);
}

#[test]
fn steal_prefers_first_of_equal_levels() {
    let mut a = VoiceAllocator::new();
    for n in 60..68 {
        a.note_on(n);
    }
    for i in 0..8 {
        a.update_env_level(i, 0.5f32.to_bits());
    }
    a.update_env_level(5, 0.1f32.to_bits());
    a.update_env_level(2, 0.1f32.to_bits());
    assert_eq!(a.note_on(80), 2);
}

#[test]
fn steal_with_no_level_below_ceiling_takes_voice_zero() {
    let mut a = VoiceAllocator::new();
    for n in 60..68 {
        a.note_on(n);
    }
    for i in 0..8 {
        a.update_env_level(i, LEVEL_KEY_CEILING);
    }
    assert_eq!(a.note_on(80), 0);
}

#[test]
fn poly4_only_four_voices() {
    let mut a = VoiceAllocator::new();
    a.mode = AssignMode::Poly4;
    for n in 40..60 {
        let v = a.note_on(n);
        assert!(v < 4, "Poly4 handed out voice {v}");
    }
}

#[test]
fn poly4_round_robin_order() {
    let mut a = VoiceAllocator::new();
    a.mode = AssignMode::Poly4;
    let got: Vec<usize> = (60..64).map(|n| a.note_on(n)).collect();
    assert_eq!(got, vec![1, 2, 3, 0]);
}

#[test]
fn unison_all_voices_same_note() {
    let mut a = VoiceAllocator::new();
    a.mode = AssignMode::Unison;
    assert_eq!(a.note_on(60), 0);
    assert_eq!(released_voices(&mut a, 60), (0..8).collect::<Vec<usize>>());
}

#[test]
fn solo_same_as_unison() {
    let mut a = VoiceAllocator::new();
    let mut b = VoiceAllocator::new();
    a.mode = AssignMode::Unison;
    b.mode = AssignMode::Solo;
    assert_eq!(a.note_on(48), b.note_on(48));
    assert_eq!(released_voices(&mut a, 48), released_voices(&mut b, 48));
}

#[test]
fn note_off_releases_correct() {
    let mut a = VoiceAllocator::new();
    let v60 = a.note_on(60);
    let v64 = a.note_on(64);
    let v67 = a.note_on(67);
    assert_eq!(released_voices(&mut a, 64), vec![v64]);
    assert_eq!(released_voices(&mut a, 64), Vec::<usize>::new());
    assert_eq!(released_voices(&mut a, 60), vec![v60]);
    assert_eq!(released_voices(&mut a, 67), vec![v67]);
}

#[test]
fn note_off_leaves_rest_of_list() {
    let mut a = VoiceAllocator::new();
    a.note_on(60);
    let mut released = [42usize; MAX_VOICES];
    let count = a.note_off(60, &mut released);
    assert_eq!(count, 1);
    assert_eq!(released[0], 1);
    assert!(released[1..].iter().all(|&x| x == 42));
}

#[test]
fn note_off_unison_releases_all() {
    let mut a = VoiceAllocator::new();
    a.mode = AssignMode::Unison;
    a.note_on(72);
    let mut released = [0usize; MAX_VOICES];
    assert_eq!(a.note_off(72, &mut released), 8);
    assert_eq!(released, [0, 1, 2, 3, 4, 5, 6, 7]);
}

#[test]
fn all_off_clears_all() {
    let mut a = VoiceAllocator::new();
    for n in 60..66 {
        a.note_on(n);
    }
    a.all_off();
    for n in 60..66 {
        assert!(released_voices(&mut a, n).is_empty());
    }
    // Freed voices are reused in round-robin order after the last one.
    assert_eq!(a.note_on(70), 7);
}

#[test]
fn round_robin_wraps() {
    let mut a = VoiceAllocator::new();
    let mut got = Vec::new();
    for n in 0..20u8 {
        let v = a.note_on(60 + n);
        got.push(v);
        released_voices(&mut a, 60 + n);
    }
    let expected: Vec<usize> = (0..20).map(|k| (k + 1) % 8).collect();
    assert_eq!(got, expected);
}

#[test]
fn env_level_tracking() {
    let mut a = VoiceAllocator::new();
    for n in 60..68 {
        a.note_on(n);
    }
    for i in 0..8 {
        a.update_env_level(i, 1.0f32.to_bits());
    }
    a.update_env_level(6, 0.2f32.to_bits());
    assert_eq!(a.note_on(90), 6);
    a.update_env_level(6, 1.0f32.to_bits());
    a.update_env_level(1, 0.01f32.to_bits());
    // Out-of-range voices are ignored.
    a.update_env_level(8, 0);
    assert_eq!(a.note_on(91), 1);
}

#[test]
fn mark_active_joins_release() {
    let mut a = VoiceAllocator::new();
    a.mark_active(4, 50);
    a.mark_active(6, 50);
    a.mark_active(9, 50);
    assert_eq!(released_voices(&mut a, 50), vec![4, 6]);
}
