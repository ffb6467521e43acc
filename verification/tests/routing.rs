use jp8_core::allocator::{AssignMode, VoiceAllocator, MAX_VOICES};
use jp8_core::arpeggiator::{ArpMode, Arpeggiator};
use jp8_core::routing::{assign_voices, release_all, route_note_off, route_note_on, VoiceAction, ASSIGN_CODE_UNISON};

#[test]
fn arp_takes_keys_when_on() {
    let mut arp = Arpeggiator::new();
    let mut alloc = VoiceAllocator::new();
    arp.mode = ArpMode::Up;
    assert_eq!(route_note_on(&mut arp, &mut alloc, 60, 0), VoiceAction::Hold);
    assert!(arp.is_active());
    let mut released = [7usize; MAX_VOICES];
    assert_eq!(route_note_off(&mut arp, &mut alloc, 60, &mut released), 0);
    assert_eq!(released, [7; MAX_VOICES]);
    assert!(!arp.is_active());
}

#[test]
fn keys_reach_voices_when_arp_off() {
    let mut arp = Arpeggiator::new();
    let mut alloc = VoiceAllocator::new();
    assert_eq!(route_note_on(&mut arp, &mut alloc, 60, 0), VoiceAction::Start(1));
    assert_eq!(route_note_on(&mut arp, &mut alloc, 64, 0), VoiceAction::Start(2));
    let mut released = [0usize; MAX_VOICES];
    assert_eq!(route_note_off(&mut arp, &mut alloc, 64, &mut released), 1);
    assert_eq!(released[0], 2);
}

#[test]
fn unison_code_starts_all() {
    let mut arp = Arpeggiator::new();
    let mut alloc = VoiceAllocator::new();
    assert_eq!(route_note_on(&mut arp, &mut alloc, 48, ASSIGN_CODE_UNISON), VoiceAction::StartAll);
    let mut released = [0usize; MAX_VOICES];
    assert_eq!(route_note_off(&mut arp, &mut alloc, 48, &mut released), 8);
    assert_eq!(released, [0, 1, 2, 3, 4, 5, 6, 7]);
}

#[test]
fn arp_steps_assign_voices() {
    let mut alloc = VoiceAllocator::new();
    assert_eq!(assign_voices(&mut alloc, 72, 0), VoiceAction::Start(1));
    assert_eq!(assign_voices(&mut alloc, 74, 3), VoiceAction::Start(0));
    assert_eq!(alloc.mode, AssignMode::Solo);
    assert_eq!(assign_voices(&mut alloc, 76, ASSIGN_CODE_UNISON), VoiceAction::StartAll);
    assert_eq!(alloc.mode, AssignMode::Unison);
}

#[test]
fn poly4_code_keeps_to_first_four_voices() {
    let mut arp = Arpeggiator::new();
    let mut alloc = VoiceAllocator::new();
    let mut voices = Vec::new();
    for n in [60u8, 62, 64, 65, 67, 69] {
        match route_note_on(&mut arp, &mut alloc, n, 1) {
            VoiceAction::Start(v) => voices.push(v),
            other => panic!("unexpected action {:?}", other),
        }
    }
    assert_eq!(alloc.mode, AssignMode::Poly4);
    // Round-robin over voices 0..4, then the quietest (first of equal levels) is stolen.
    assert_eq!(voices, vec![1, 2, 3, 0, 0, 0]);
    assert!(voices.iter().all(|&v| v < 4));
    let mut released = [0usize; MAX_VOICES];
    assert_eq!(route_note_off(&mut arp, &mut alloc, 69, &mut released), 1);
    assert_eq!(released[0], 0);
}

#[test]
fn solo_code_starts_first_voice_and_releases_all() {
    let mut arp = Arpeggiator::new();
    let mut alloc = VoiceAllocator::new();
    assert_eq!(route_note_on(&mut arp, &mut alloc, 55, 3), VoiceAction::Start(0));
    let mut released = [0usize; MAX_VOICES];
    assert_eq!(route_note_off(&mut arp, &mut alloc, 55, &mut released), 8);
    assert_eq!(released, [0, 1, 2, 3, 4, 5, 6, 7]);
}

#[test]
fn unknown_assign_code_is_poly8() {
    let mut alloc = VoiceAllocator::new();
    assert_eq!(assign_voices(&mut alloc, 60, 9), VoiceAction::Start(1));
    assert_eq!(alloc.mode, AssignMode::Poly8);
    assert_eq!(AssignMode::from_code(0), AssignMode::Poly8);
    assert_eq!(AssignMode::from_code(1), AssignMode::Poly4);
    assert_eq!(AssignMode::from_code(2), AssignMode::Unison);
    assert_eq!(AssignMode::from_code(3), AssignMode::Solo);
    assert_eq!(AssignMode::from_code(200), AssignMode::Poly8);
}

#[test]
fn release_all_silences() {
    let mut arp = Arpeggiator::new();
    let mut alloc = VoiceAllocator::new();
    for n in 60..64 {
        route_note_on(&mut arp, &mut alloc, n, 0);
    }
    arp.mode = ArpMode::Up;
    route_note_on(&mut arp, &mut alloc, 70, 0);
    release_all(&mut arp, &mut alloc);
    assert!(!arp.is_active());
    arp.mode = ArpMode::Off;
    let mut released = [0usize; MAX_VOICES];
    for n in 60..64 {
        assert_eq!(route_note_off(&mut arp, &mut alloc, n, &mut released), 0);
    }
}
