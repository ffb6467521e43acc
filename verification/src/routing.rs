//! Note routing of the engine: key events go to the arpeggiator when it is
//! on, otherwise to the voice allocator, which is put in the assign mode that
//! the parameter code selects; in unison every voice takes the note.
//! The engine then starts or releases the voices that the routing names.

use vstd::prelude::*;
use crate::allocator::{
    assign_mode_of_code, lemma_all_holders_listed, note_off_result, note_on_result_in_mode, AssignMode,
    VoiceAllocator, MAX_VOICES, POLY4_VOICES,
};
use crate::arpeggiator::{arp_note_off_result, arp_note_on_result, ArpMode, Arpeggiator};

verus! {

/// Assign-mode parameter code that puts every voice on each note.
pub const ASSIGN_CODE_UNISON: u8 = 2;

/// What the engine does with its voices after a note-on.
#[derive(Clone, Copy, PartialEq, Eq, Debug, Structural)]
pub enum VoiceAction {
    /// Nothing: the arpeggiator took the note.
    Hold,
    /// Start this voice on the note.
    Start(usize),
    /// Start every voice on the note (unison).
    StartAll,
}

/// What `assign_voices(alloc, note, assign_code)` does: the allocator is put
/// in the assign mode that the code selects and hands out voices for the
/// note; in unison the engine starts every voice, otherwise the voice that
/// the allocator returned.
pub open spec fn assign_result(pre: VoiceAllocator, post: VoiceAllocator, note: u8, assign_code: u8, act: VoiceAction) -> bool {
    let mode = assign_mode_of_code(assign_code);
    if assign_code == ASSIGN_CODE_UNISON {
        act == VoiceAction::StartAll && note_on_result_in_mode(pre, post, note, 0, mode)
    } else {
        act matches VoiceAction::Start(r) && note_on_result_in_mode(pre, post, note, r, mode)
    }
}

/// Chooses the voices for a note that reaches them (a key when the
/// arpeggiator is off, or an arpeggiator step), in the assign mode that
/// `assign_code` selects.
pub fn assign_voices(alloc: &mut VoiceAllocator, note: u8, assign_code: u8) -> (act: VoiceAction)
    requires
        old(alloc).wf(),
    ensures
        final(alloc).wf(),
        assign_result(*old(alloc), *final(alloc), note, assign_code, act),
{
    alloc.set_mode(AssignMode::from_code(assign_code));
    let r = alloc.note_on(note);
    if assign_code == ASSIGN_CODE_UNISON {
        VoiceAction::StartAll
    } else {
        VoiceAction::Start(r)
    }
}

/// Routes a key press: the arpeggiator takes it when it is on (no voice
/// starts); otherwise it is assigned to voices.
pub fn route_note_on(arp: &mut Arpeggiator, alloc: &mut VoiceAllocator, note: u8, assign_code: u8) -> (act: VoiceAction)
    requires
        old(arp).wf(),
        old(alloc).wf(),
    ensures
        final(arp).wf(),
        final(alloc).wf(),
        arp_note_on_result(*old(arp), *final(arp), note, act == VoiceAction::Hold),
        old(arp).arp_mode() != ArpMode::Off ==> act == VoiceAction::Hold && *final(alloc)
            == *old(alloc),
        old(arp).arp_mode() == ArpMode::Off ==> assign_result(
            *old(alloc),
            *final(alloc),
            note,
            assign_code,
            act,
        ),
{
    if arp.note_on(note) {
        // Arp is handling this note — don't trigger voice directly
        return VoiceAction::Hold;
    }
    assign_voices(alloc, note, assign_code)
}

/// Routes a key release: the arpeggiator takes it when it is on (returns 0,
/// nothing released); otherwise the voices holding the note are released
/// and listed at the front of `released`.
pub fn route_note_off(
    arp: &mut Arpeggiator,
    alloc: &mut VoiceAllocator,
    note: u8,
    released: &mut [usize; MAX_VOICES],
) -> (count: usize)
    requires
        old(arp).wf(),
        old(alloc).wf(),
    ensures
        final(arp).wf(),
        final(alloc).wf(),
        arp_note_off_result(*old(arp), *final(arp), note, old(arp).arp_mode() != ArpMode::Off),
        old(arp).arp_mode() != ArpMode::Off ==> count == 0 && *final(alloc) == *old(alloc)
            && final(released)@ == old(released)@,
        old(arp).arp_mode() == ArpMode::Off ==> note_off_result(
            *old(alloc),
            *final(alloc),
            note,
            old(released)@,
            final(released)@,
            count,
        ),
{
    if arp.note_off(note) {
        return 0;
    }
    alloc.note_off(note, released)
}

/// Silences everything: the arpeggiator lets go of every key and every voice
/// is marked free.
pub fn release_all(arp: &mut Arpeggiator, alloc: &mut VoiceAllocator)
    requires
        old(arp).wf(),
        old(alloc).wf(),
    ensures
        final(arp).wf(),
        final(alloc).wf(),
        final(arp).held_notes() == Seq::<u8>::empty(),
        final(arp).current_note() == 0,
        final(arp).seq_len() == 0,
        final(arp).arp_mode() == old(arp).arp_mode(),
        final(arp).range() == old(arp).range(),
        final(arp).going_up() == old(arp).going_up(),
        final(arp).pos() == 0,
        final(alloc).active() == Seq::new(MAX_VOICES as nat, |i: int| false),
        final(alloc).assign_mode() == old(alloc).assign_mode(),
        final(alloc).levels() == old(alloc).levels(),
        final(alloc).notes() == old(alloc).notes(),
        final(alloc).last_assigned() == old(alloc).last_assigned(),
{
    arp.all_off();
    alloc.all_off();
}

/// A key that reached the voices is released by its note-off: the voice it
/// started is listed and falls silent, and after a unison key all eight
/// voices are listed in order and fall silent.
pub proof fn lemma_routed_key_released(
    a: VoiceAllocator,
    b: VoiceAllocator,
    c: VoiceAllocator,
    note: u8,
    assign_code: u8,
    act: VoiceAction,
    rel_pre: Seq<usize>,
    rel_post: Seq<usize>,
    count: usize,
)
    requires
        a.wf(),
        assign_result(a, b, note, assign_code, act),
        note_off_result(b, c, note, rel_pre, rel_post, count),
    ensures
        act matches VoiceAction::Start(r) ==> r < MAX_VOICES && !c.active()[r as int] && exists|k: int|
            0 <= k < count && rel_post[k] == r,
        act == VoiceAction::StartAll ==> count == MAX_VOICES && (forall|i: int|
            0 <= i < MAX_VOICES ==> rel_post[i] == i && !c.active()[i]),
{
    a.lemma_lengths();
    if let VoiceAction::Start(r) = act {
        assert(b.holds(r as int, note));
    }
    if act == VoiceAction::StartAll {
        assert forall|i: int| 0 <= i < MAX_VOICES implies #[trigger] b.holds(i, note) by {
            assert(b.active()[i]);
            assert(b.notes()[i] == note);
        }
        lemma_all_holders_listed(b, c, note, rel_pre, rel_post, count);
    }
}

/// In Poly4 (code 1) a key reaching the voices only ever takes one of the
/// first four voices, whatever the allocator held before.
pub proof fn lemma_poly4_code_uses_first_four(
    a: VoiceAllocator,
    b: VoiceAllocator,
    note: u8,
    act: VoiceAction,
)
    requires
        a.wf(),
        assign_result(a, b, note, 1, act),
    ensures
        act matches VoiceAction::Start(r) && r < POLY4_VOICES,
        b.assign_mode() == AssignMode::Poly4,
{
}

} // verus!
