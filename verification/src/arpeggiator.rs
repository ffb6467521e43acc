//! JP-8 arpeggiator: modes Up, Down and Up+Down over 1 to 4 octaves.
//!
//! Held keys are kept sorted without duplicates. The sequence walks the held
//! notes octave by octave; Down walks it from the top, and Up+Down alternates
//! direction at the end of each pass. Step timing (the tempo clock) lives with
//! the caller, which tells `tick` when a step boundary has been crossed.

use vstd::prelude::*;

verus! {

/// The most keys the arpeggiator holds at once.
pub const MAX_HELD_NOTES: usize = 16;

/// Highest MIDI note the arpeggiator emits.
pub const MAX_ARP_NOTE: u8 = 127;

/// Arpeggiator mode.
#[derive(Clone, Copy, PartialEq, Eq, Debug, Structural)]
pub enum ArpMode {
    Off,
    Up,
    Down,
    UpDown,
}

/// Decodes the parameter code of the arpeggiator mode: 0 = Off, 1 = Up,
/// 2 = Down, 3 = Up+Down; any other code turns the arpeggiator off.
pub open spec fn arp_mode_of_code(code: u8) -> ArpMode {
    if code == 1 {
        ArpMode::Up
    } else if code == 2 {
        ArpMode::Down
    } else if code == 3 {
        ArpMode::UpDown
    } else {
        ArpMode::Off
    }
}

impl ArpMode {
    /// Decodes the parameter code of the arpeggiator mode.
    pub fn from_code(code: u8) -> (m: ArpMode)
        ensures
            m == arp_mode_of_code(code),
            code == 0 ==> m == ArpMode::Off,
            code == 1 ==> m == ArpMode::Up,
            code == 2 ==> m == ArpMode::Down,
            code == 3 ==> m == ArpMode::UpDown,
            code > 3 ==> m == ArpMode::Off,
    {
        match code {
            0 => ArpMode::Off,
            1 => ArpMode::Up,
            2 => ArpMode::Down,
            3 => ArpMode::UpDown,
            _ => ArpMode::Off,
        }
    }
}

/// Every element is below every later one.
pub open spec fn strictly_increasing(s: Seq<u8>) -> bool {
    forall|i: int, j: int| 0 <= i < j < s.len() ==> s[i] < s[j]
}

/// `p` is where `x` belongs in the sorted sequence `s`: everything before it
/// is below `x`, everything from it on is above `x`.
pub open spec fn insert_position(s: Seq<u8>, x: u8, p: int) -> bool {
    &&& 0 <= p <= s.len()
    &&& forall|i: int| 0 <= i < p ==> s[i] < x
    &&& forall|i: int| p <= i < s.len() ==> s[i] > x
}

/// The note played at sequence position `pos` when stepping upward through
/// the sorted held notes `held` (octave by octave), before the cap at 127.
pub open spec fn up_note(held: Seq<u8>, pos: int) -> int {
    let hc = held.len() as int;
    held[pos % hc] + 12 * (pos / hc)
}

/// The note played at sequence position `pos` when stepping downward through
/// the held notes over `range` octaves, before the cap at 127.
pub open spec fn down_note(held: Seq<u8>, range: int, pos: int) -> int {
    let hc = held.len() as int;
    held[hc - 1 - pos % hc] + 12 * (range - 1 - pos / hc)
}

/// The note a step at position `pos` emits: the mode's note capped at 127
/// (a negative note, which no step produces, reads as 0).
pub open spec fn step_note(mode: ArpMode, held: Seq<u8>, range: int, pos: int, going_up: bool) -> u8 {
    let raw = match mode {
        ArpMode::Down => down_note(held, range, pos),
        ArpMode::UpDown => if going_up {
            up_note(held, pos)
        } else {
            down_note(held, range, pos)
        },
        _ => up_note(held, pos),
    };
    if raw > MAX_ARP_NOTE {
        MAX_ARP_NOTE
    } else if raw < 0 {
        0
    } else {
        raw as u8
    }
}

/// After a change of the held keys to `count` keys, the sequence length is
/// `count` times the range and a position past the end returns to 0.
pub open spec fn rebuilt(pre: Arpeggiator, post: Arpeggiator, count: int) -> bool {
    &&& post.seq_len() == pre.rebuilt_len(count)
    &&& post.pos() == if pre.pos() >= pre.rebuilt_len(count) {
        0
    } else {
        pre.pos()
    }
}

/// Neither the held keys nor the sequence position changed.
pub open spec fn sequence_unchanged(pre: Arpeggiator, post: Arpeggiator) -> bool {
    &&& post.held_notes() == pre.held_notes()
    &&& post.pos() == pre.pos()
    &&& post.seq_len() == pre.seq_len()
}

/// What `note_on(note)` does: `post` is the arpeggiator after the call on
/// `pre`, `r` the result. When the arpeggiator is on, the key is added in
/// sorted position unless it is already held or 16 keys are held.
pub open spec fn arp_note_on_result(pre: Arpeggiator, post: Arpeggiator, note: u8, r: bool) -> bool {
    &&& post.arp_mode() == pre.arp_mode()
    &&& post.range() == pre.range()
    &&& post.going_up() == pre.going_up()
    &&& post.current_note() == pre.current_note()
    &&& r == (pre.arp_mode() != ArpMode::Off)
    &&& if r && pre.held_notes().len() < MAX_HELD_NOTES && !pre.held_notes().contains(note) {
        &&& exists|p: int|
            #[trigger] insert_position(pre.held_notes(), note, p) && post.held_notes()
                == pre.held_notes().take(p).push(note) + pre.held_notes().skip(p)
        &&& rebuilt(pre, post, pre.held_notes().len() + 1int)
    } else {
        sequence_unchanged(pre, post)
    }
}

/// What `note_off(note)` does: `post` is the arpeggiator after the call on
/// `pre`, `r` the result. When the arpeggiator is on, a held key equal to
/// `note` is removed.
pub open spec fn arp_note_off_result(pre: Arpeggiator, post: Arpeggiator, note: u8, r: bool) -> bool {
    &&& post.arp_mode() == pre.arp_mode()
    &&& post.range() == pre.range()
    &&& post.going_up() == pre.going_up()
    &&& post.current_note() == pre.current_note()
    &&& r == (pre.arp_mode() != ArpMode::Off)
    &&& if r && pre.held_notes().contains(note) {
        &&& exists|p: int|
            0 <= p < pre.held_notes().len() && #[trigger] pre.held_notes()[p] == note
                && post.held_notes() == pre.held_notes().remove(p)
        &&& rebuilt(pre, post, pre.held_notes().len() - 1)
    } else {
        sequence_unchanged(pre, post)
    }
}

/// What `tick(step_due)` does: `post` is the arpeggiator after the call on
/// `pre` and `r` the (note on, note off) pair it returns (0 = no event).
/// Off or with nothing held, it releases the sounding note; otherwise, at a
/// step boundary, it releases the sounding note, plays the next note of the
/// sequence and advances, turning round at the end of a pass in Up+Down.
pub open spec fn arp_tick_result(pre: Arpeggiator, post: Arpeggiator, step_due: bool, r: (u8, u8)) -> bool {
    &&& post.arp_mode() == pre.arp_mode()
    &&& post.range() == pre.range()
    &&& post.held_notes() == pre.held_notes()
    &&& post.seq_len() == pre.seq_len()
    &&& if pre.arp_mode() == ArpMode::Off || pre.seq_len() == 0 {
        &&& r == (0u8, pre.current_note())
        &&& post.current_note() == 0
        &&& post.pos() == pre.pos()
        &&& post.going_up() == pre.going_up()
    } else if !step_due {
        &&& r == (0u8, 0u8)
        &&& post.current_note() == pre.current_note()
        &&& post.pos() == pre.pos()
        &&& post.going_up() == pre.going_up()
    } else {
        let wrapped = pre.pos() + 1 >= pre.seq_len();
        &&& r.0 == step_note(
            pre.arp_mode(),
            pre.held_notes(),
            pre.range(),
            pre.pos(),
            pre.going_up(),
        )
        &&& r.1 == pre.current_note()
        &&& post.current_note() == r.0
        &&& post.pos() == if wrapped {
            0
        } else {
            pre.pos() + 1
        }
        &&& post.going_up() == if wrapped && pre.arp_mode() == ArpMode::UpDown {
            !pre.going_up()
        } else {
            pre.going_up()
        }
    }
}

/// A position inside a sequence of `range` octaves of `hc` keys names an
/// octave below `range` and a key below `hc`.
proof fn lemma_octave_fits(pos: int, hc: int, range: int)
    requires
        0 <= pos < hc * range,
        0 < hc,
    ensures
        0 <= pos / hc < range,
        0 <= pos % hc < hc,
{
    assert(0 <= pos / hc < range) by (nonlinear_arith)
        requires
            0 <= pos < hc * range,
            0 < hc,
    ;
}

/// A rebuilt sequence stays within 255 octaves of the held keys.
proof fn lemma_rebuilt_len_bound(count: int, range: int)
    requires
        0 <= count,
        0 <= range <= 255,
    ensures
        0 <= count * range <= count * 255,
{
    assert(0 <= count * range <= count * 255) by (nonlinear_arith)
        requires
            0 <= count,
            0 <= range <= 255,
    ;
}

/// The held keys are always sorted, without duplicates, and at most 16.
pub proof fn lemma_held_keys_sorted(a: Arpeggiator)
    requires
        a.wf(),
    ensures
        strictly_increasing(a.held_notes()),
        a.held_notes().len() <= MAX_HELD_NOTES,
        a.seq_len() == 0 ==> a.pos() == 0,
        a.seq_len() > 0 ==> a.pos() < a.seq_len(),
{
}

/// Releasing a key right after pressing it (while the arpeggiator is on and
/// the key was neither held nor over the 16-key limit) gives back the keys
/// held before, with the sequence length rebuilt for them.
pub proof fn lemma_note_off_undoes_note_on(
    a: Arpeggiator,
    b: Arpeggiator,
    c: Arpeggiator,
    note: u8,
    r1: bool,
    r2: bool,
)
    requires
        a.wf(),
        a.arp_mode() != ArpMode::Off,
        a.held_notes().len() < MAX_HELD_NOTES,
        !a.held_notes().contains(note),
        arp_note_on_result(a, b, note, r1),
        arp_note_off_result(b, c, note, r2),
    ensures
        r1 && r2,
        c.held_notes() == a.held_notes(),
        c.seq_len() == a.held_notes().len() * a.range(),
{
    let h = a.held_notes();
    let p = choose|p: int|
        #[trigger] insert_position(h, note, p) && b.held_notes() == h.take(p).push(note) + h.skip(p);
    assert(b.held_notes()[p] == note);
    assert(b.held_notes().contains(note));
    let q = choose|q: int|
        0 <= q < b.held_notes().len() && #[trigger] b.held_notes()[q] == note
            && c.held_notes() == b.held_notes().remove(q);
    if q < p {
        assert(b.held_notes()[q] == h[q]);
        assert(h[q] < note);
    } else if q > p {
        assert(b.held_notes()[q] == h[q - 1]);
        assert(h[q - 1] > note);
    }
    assert(c.held_notes() =~= h);
}

/// Over a full pass of `hc * range` steps, Down plays exactly the Up
/// sequence backwards: the note at position `pos` going down is the note at
/// position `hc * range - 1 - pos` going up.
pub proof fn lemma_down_reverses_up(held: Seq<u8>, range: int, pos: int)
    requires
        held.len() > 0,
        range >= 1,
        0 <= pos < held.len() * range,
    ensures
        down_note(held, range, pos) == up_note(held, held.len() * range - 1 - pos),
{
    let hc = held.len() as int;
    let idx = pos % hc;
    let oct = pos / hc;
    let mirror = hc * range - 1 - pos;
    assert(pos == oct * hc + idx && 0 <= idx < hc) by (nonlinear_arith)
        requires
            hc > 0,
            idx == pos % hc,
            oct == pos / hc,
    ;
    assert(mirror == (range - 1 - oct) * hc + (hc - 1 - idx)) by (nonlinear_arith)
        requires
            pos == oct * hc + idx,
            mirror == hc * range - 1 - pos,
    ;
    assert(0 <= oct < range) by (nonlinear_arith)
        requires
            0 <= pos < hc * range,
            pos == oct * hc + idx,
            0 <= idx < hc,
    ;
    lemma_split_position(hc, range - 1 - oct, hc - 1 - idx);
}

/// A Down step plays the note of the Up step mirrored in the pass: with the
/// same held keys and range, a Down arpeggiator at position `p` emits what an
/// Up arpeggiator emits at position `hc * range - 1 - p`, so a full Down pass
/// is the Up pass backwards.
pub proof fn lemma_down_tick_mirrors_up_tick(
    a: Arpeggiator,
    a2: Arpeggiator,
    b: Arpeggiator,
    b2: Arpeggiator,
    ra: (u8, u8),
    rb: (u8, u8),
)
    requires
        a.arp_mode() == ArpMode::Up,
        b.arp_mode() == ArpMode::Down,
        a.seq_len() != 0,
        b.seq_len() != 0,
        a.held_notes() == b.held_notes(),
        a.range() == b.range(),
        b.held_notes().len() > 0,
        b.range() >= 1,
        0 <= b.pos() < b.held_notes().len() * b.range(),
        a.pos() == b.held_notes().len() * b.range() - 1 - b.pos(),
        arp_tick_result(a, a2, true, ra),
        arp_tick_result(b, b2, true, rb),
    ensures
        rb.0 == ra.0,
{
    lemma_down_reverses_up(b.held_notes(), b.range(), b.pos());
}

/// Along a run of ticks that each take a step (`s[j]` ticks to `s[j + 1]`,
/// returning `out[j]`) from position 0 of a sequence of length `n`, the
/// `j`-th step is taken at position `j` with the keys, range, mode and
/// length of the start.
proof fn lemma_steps_walk_positions(s: Seq<Arpeggiator>, out: Seq<(u8, u8)>, n: int, i: int)
    requires
        0 <= i < n,
        s.len() == n + 1,
        out.len() == n,
        s[0].pos() == 0,
        s[0].seq_len() == n,
        s[0].arp_mode() != ArpMode::Off,
        forall|j: int| #![trigger out[j]] 0 <= j < n ==> arp_tick_result(s[j], s[j + 1], true, out[j]),
    ensures
        s[i].pos() == i,
        s[i].seq_len() == n,
        s[i].arp_mode() == s[0].arp_mode(),
        s[i].held_notes() == s[0].held_notes(),
        s[i].range() == s[0].range(),
    decreases i,
{
    if i > 0 {
        lemma_steps_walk_positions(s, out, n, i - 1);
        assert(arp_tick_result(s[i - 1], s[i], true, out[i - 1]));
    }
}

/// Over a full pass from position 0, a Down arpeggiator plays the notes of an
/// Up arpeggiator with the same keys and range in reverse order: with
/// `n = hc * range` steps taken on each (`ups[j]` ticks to `ups[j + 1]`
/// returning `up_out[j]`, and likewise for Down), the `j`-th Down note is the
/// `(n - 1 - j)`-th Up note.
pub proof fn lemma_down_pass_reverses_up_pass(
    ups: Seq<Arpeggiator>,
    downs: Seq<Arpeggiator>,
    up_out: Seq<(u8, u8)>,
    down_out: Seq<(u8, u8)>,
    n: int,
)
    requires
        ups[0].wf(),
        downs[0].wf(),
        ups[0].arp_mode() == ArpMode::Up,
        downs[0].arp_mode() == ArpMode::Down,
        ups[0].held_notes() == downs[0].held_notes(),
        ups[0].range() == downs[0].range(),
        n == ups[0].held_notes().len() * ups[0].range(),
        n > 0,
        ups[0].pos() == 0,
        downs[0].pos() == 0,
        ups.len() == n + 1,
        downs.len() == n + 1,
        up_out.len() == n,
        down_out.len() == n,
        forall|j: int| #![trigger up_out[j]] 0 <= j < n ==> arp_tick_result(ups[j], ups[j + 1], true, up_out[j]),
        forall|j: int|
            #![trigger down_out[j]]
            0 <= j < n ==> arp_tick_result(downs[j], downs[j + 1], true, down_out[j]),
    ensures
        forall|j: int| 0 <= j < n ==> #[trigger] down_out[j].0 == up_out[n - 1 - j].0,
{
    let hc = ups[0].held_notes().len() as int;
    let range = ups[0].range();
    assert(hc > 0 && range >= 1) by (nonlinear_arith)
        requires
            n == hc * range,
            n > 0,
            hc >= 0,
            range >= 0,
    ;
    assert forall|j: int| 0 <= j < n implies #[trigger] down_out[j].0 == up_out[n - 1 - j].0 by {
        let m = n - 1 - j;
        lemma_steps_walk_positions(ups, up_out, n, m);
        lemma_steps_walk_positions(downs, down_out, n, j);
        assert(arp_tick_result(ups[m], ups[m + 1], true, up_out[m]));
        assert(arp_tick_result(downs[j], downs[j + 1], true, down_out[j]));
        lemma_down_tick_mirrors_up_tick(ups[m], ups[m + 1], downs[j], downs[j + 1], up_out[m], down_out[j]);
    }
}

/// `x` held to the highest MIDI note.
pub open spec fn capped_at_top(x: int) -> int {
    if x > 127 {
        127
    } else {
        x
    }
}

/// What a step plays, in terms of the held keys: at position
/// `oct * hc + i` (key `i` of octave `oct`, with `hc` keys held), an ascending
/// step (Up, or Up+Down going up) plays key `i` raised by `oct` octaves, and a
/// descending step (Down, or Up+Down going down) plays key `hc - 1 - i` raised
/// by `range - 1 - oct` octaves, walking back from the top octave; the note
/// is capped at 127. The octave always lies below the range.
pub proof fn lemma_tick_plays_pattern(a: Arpeggiator, b: Arpeggiator, r: (u8, u8), oct: int, i: int)
    requires
        a.wf(),
        a.arp_mode() != ArpMode::Off,
        a.range() >= 1,
        0 <= oct,
        0 <= i < a.held_notes().len(),
        a.pos() == oct * a.held_notes().len() + i,
        arp_tick_result(a, b, true, r),
    ensures
        oct < a.range(),
        (a.arp_mode() == ArpMode::Up || (a.arp_mode() == ArpMode::UpDown && a.going_up())) ==> r.0
            == capped_at_top(a.held_notes()[i] + 12 * oct),
        (a.arp_mode() == ArpMode::Down || (a.arp_mode() == ArpMode::UpDown && !a.going_up()))
            ==> r.0 == capped_at_top(
            a.held_notes()[a.held_notes().len() - 1 - i] + 12 * (a.range() - 1 - oct),
        ),
{
    let hc = a.held_notes().len() as int;
    let range = a.range();
    assert(a.seq_len() == hc * range);
    assert(hc * range > 0) by (nonlinear_arith)
        requires
            hc > 0,
            range >= 1,
    ;
    assert(oct < range) by (nonlinear_arith)
        requires
            0 <= oct * hc + i < hc * range,
            0 <= i < hc,
            0 <= oct,
    ;
    lemma_split_position(hc, oct, i);
}

/// In Up+Down, a step of the descending pass plays the note of the Up step
/// mirrored in the pass: with the same held keys and range, going down at
/// position `p` emits what Up emits at position `hc * range - 1 - p`, so the
/// descending pass is the ascending pass backwards.
pub proof fn lemma_updown_descent_mirrors_up_tick(
    a: Arpeggiator,
    a2: Arpeggiator,
    b: Arpeggiator,
    b2: Arpeggiator,
    ra: (u8, u8),
    rb: (u8, u8),
)
    requires
        a.arp_mode() == ArpMode::Up,
        b.arp_mode() == ArpMode::UpDown,
        !b.going_up(),
        a.seq_len() != 0,
        b.seq_len() != 0,
        a.held_notes() == b.held_notes(),
        a.range() == b.range(),
        b.held_notes().len() > 0,
        b.range() >= 1,
        0 <= b.pos() < b.held_notes().len() * b.range(),
        a.pos() == b.held_notes().len() * b.range() - 1 - b.pos(),
        arp_tick_result(a, a2, true, ra),
        arp_tick_result(b, b2, true, rb),
    ensures
        rb.0 == ra.0,
{
    lemma_down_reverses_up(b.held_notes(), b.range(), b.pos());
}

/// A position `oct * hc + i` with `i < hc` is note `i` of octave `oct`.
proof fn lemma_split_position(hc: int, oct: int, i: int)
    requires
        hc > 0,
        0 <= oct,
        0 <= i < hc,
    ensures
        (oct * hc + i) % hc == i,
        (oct * hc + i) / hc == oct,
{
    vstd::arithmetic::div_mod::lemma_fundamental_div_mod_converse(oct * hc + i, hc, oct, i);
}

/// Up mode plays the held keys in ascending order, one octave after the
/// other: step `oct * hc + i` is key `i` raised by `oct` octaves.
pub proof fn lemma_up_plays_octaves_in_turn(held: Seq<u8>, oct: int, i: int)
    requires
        0 <= oct,
        0 <= i < held.len(),
    ensures
        up_note(held, oct * held.len() + i) == held[i] + 12 * oct,
{
    lemma_split_position(held.len() as int, oct, i);
}

/// Every note the arpeggiator emits is a MIDI note no higher than 127.
pub proof fn lemma_emitted_notes_in_range(a: Arpeggiator, b: Arpeggiator, step_due: bool, r: (u8, u8))
    requires
        arp_tick_result(a, b, step_due, r),
        a.arp_mode() != ArpMode::Off,
        a.seq_len() != 0,
        step_due,
    ensures
        r.0 <= MAX_ARP_NOTE,
        b.current_note() <= MAX_ARP_NOTE,
{
}

/// Arpeggiator state (the tempo clock is kept by the caller).
pub struct Arpeggiator {
    pub mode: ArpMode,
    /// Octave range, 1 to 4. Set it with `set_range_octaves`, which rebuilds
    /// the sequence for the new range.
    pub range_octaves: u8,
    held: [u8; MAX_HELD_NOTES],
    held_count: usize,
    sequence_pos: usize,
    sequence_len: usize,
    going_up: bool,
    current_note: u8,
}

impl Arpeggiator {
    /// The current mode.
    pub closed spec fn arp_mode(&self) -> ArpMode {
        self.mode
    }

    /// The current octave range.
    pub closed spec fn range(&self) -> int {
        self.range_octaves as int
    }

    /// The held keys, sorted.
    pub closed spec fn held_notes(&self) -> Seq<u8> {
        self.held@.subrange(0, self.held_count as int)
    }

    /// Position of the next step in the sequence.
    pub closed spec fn pos(&self) -> int {
        self.sequence_pos as int
    }

    /// Length of the sequence: held keys times the octave range at the last
    /// change of the held keys.
    pub closed spec fn seq_len(&self) -> int {
        self.sequence_len as int
    }

    /// Direction of the current pass in Up+Down mode.
    pub closed spec fn going_up(&self) -> bool {
        self.going_up
    }

    /// The note sounding from the last step (0 = none).
    pub closed spec fn current_note(&self) -> u8 {
        self.current_note
    }

    /// The arpeggiator's invariant.
    pub closed spec fn wf(&self) -> bool {
        &&& self.held_count <= MAX_HELD_NOTES
        &&& strictly_increasing(self.held_notes())
        &&& self.sequence_len == self.held_count * self.range_octaves
        &&& self.sequence_pos < self.sequence_len || (self.sequence_pos == 0
            && self.sequence_len == 0)
    }

    /// The sequence length after the held keys change: keys times range.
    pub open spec fn rebuilt_len(&self, count: int) -> int {
        count * self.range()
    }

    /// A new arpeggiator: off, one octave, nothing held.
    pub fn new() -> (a: Self)
        ensures
            a.wf(),
            a.arp_mode() == ArpMode::Off,
            a.range() == 1,
            a.held_notes() == Seq::<u8>::empty(),
            a.pos() == 0,
            a.seq_len() == 0,
            a.going_up(),
            a.current_note() == 0,
    {
        let a = Arpeggiator {
            mode: ArpMode::Off,
            range_octaves: 1,
            held: [0; MAX_HELD_NOTES],
            held_count: 0,
            sequence_pos: 0,
            sequence_len: 0,
            going_up: true,
            current_note: 0,
        };
        assert(a.held_notes() =~= Seq::<u8>::empty());
        a
    }

    fn rebuild_sequence(&mut self)
        requires
            old(self).held_count <= MAX_HELD_NOTES,
        ensures
            final(self).held == old(self).held,
            final(self).held_count == old(self).held_count,
            final(self).mode == old(self).mode,
            final(self).range_octaves == old(self).range_octaves,
            final(self).going_up == old(self).going_up,
            final(self).current_note == old(self).current_note,
            final(self).sequence_len == old(self).held_count * old(self).range_octaves,
            final(self).sequence_pos == if old(self).sequence_pos >= final(self).sequence_len {
                0
            } else {
                old(self).sequence_pos
            },
            final(self).sequence_pos < final(self).sequence_len || (final(self).sequence_pos
                == 0 && final(self).sequence_len == 0),
    {
        proof {
            lemma_rebuilt_len_bound(self.held_count as int, self.range_octaves as int);
        }
        // Sequence length = held_count × range_octaves
        // For UpDown, we don't double — handled by direction toggle
        self.sequence_len = self.held_count * self.range_octaves as usize;
        if self.sequence_pos >= self.sequence_len {
            self.sequence_pos = 0;
        }
    }

    /// Called when a key is pressed. Returns true if the arpeggiator handles
    /// the note (it is on).
    pub fn note_on(&mut self, note: u8) -> (r: bool)
        requires
            old(self).wf(),
        ensures
            final(self).wf(),
            arp_note_on_result(*old(self), *final(self), note, r),
    {
        if self.mode == ArpMode::Off {
            return false;
        }
        // Add to held notes (sorted, no duplicates)
        if self.held_count < MAX_HELD_NOTES && !self.holds_key(note) {
            let ghost pre = *self;
            let p = self.insert_sorted(note);
            self.rebuild_sequence();
            assert(insert_position(pre.held_notes(), note, p as int));
        }
        true
    }

    /// Whether `note` is among the held keys.
    fn holds_key(&self, note: u8) -> (b: bool)
        requires
            self.held_count <= MAX_HELD_NOTES,
        ensures
            b == self.held_notes().contains(note),
    {
        let mut i: usize = 0;
        while i < self.held_count
            invariant
                self.held_count <= MAX_HELD_NOTES,
                0 <= i <= self.held_count,
                forall|j: int| 0 <= j < i ==> self.held@[j] != note,
            decreases self.held_count - i,
        {
            if self.held[i] == note {
                assert(self.held_notes()[i as int] == note);
                return true;
            }
            i += 1;
        }
        assert(!self.held_notes().contains(note)) by {
            if self.held_notes().contains(note) {
                let j = choose|j: int| 0 <= j < self.held_notes().len() && self.held_notes()[j] == note;
                assert(self.held@[j] == note);
            }
        }
        false
    }

    /// Inserts a key that is not held yet at its sorted position; returns
    /// the position.
    fn insert_sorted(&mut self, note: u8) -> (p: usize)
        requires
            old(self).held_count < MAX_HELD_NOTES,
            strictly_increasing(old(self).held_notes()),
            !old(self).held_notes().contains(note),
        ensures
            p <= old(self).held_count,
            insert_position(old(self).held_notes(), note, p as int),
            final(self).held_count == old(self).held_count + 1,
            final(self).held_notes() == old(self).held_notes().take(p as int).push(note)
                + old(self).held_notes().skip(p as int),
            strictly_increasing(final(self).held_notes()),
            final(self).mode == old(self).mode,
            final(self).range_octaves == old(self).range_octaves,
            final(self).going_up == old(self).going_up,
            final(self).current_note == old(self).current_note,
            final(self).sequence_pos == old(self).sequence_pos,
            final(self).sequence_len == old(self).sequence_len,
    {
        let ghost h = self.held_notes();
        let ghost arr = self.held@;
        let hc = self.held_count;
        let mut p: usize = 0;
        while p < hc && self.held[p] < note
            invariant
                hc == self.held_count,
                hc < MAX_HELD_NOTES,
                h == self.held_notes(),
                0 <= p <= hc,
                forall|j: int| 0 <= j < p ==> h[j] < note,
            decreases hc - p,
        {
            p += 1;
        }
        assert forall|j: int| p <= j < hc implies h[j] > note by {
            assert(h[p as int] >= note);
            assert(h[p as int] != note);
            if j > p {
                assert(h[p as int] < h[j]);
            }
        }
        // Shift the keys above `note` up by one.
        let mut i: usize = hc;
        while i > p
            invariant
                p <= i <= hc,
                hc < MAX_HELD_NOTES,
                self.held_count == hc,
                self.mode == old(self).mode,
                self.range_octaves == old(self).range_octaves,
                self.going_up == old(self).going_up,
                self.current_note == old(self).current_note,
                self.sequence_pos == old(self).sequence_pos,
                self.sequence_len == old(self).sequence_len,
                forall|j: int| 0 <= j <= i ==> self.held@[j] == arr[j],
                forall|j: int| i < j <= hc ==> self.held@[j] == arr[j - 1],
            decreases i,
        {
            self.held[i] = self.held[i - 1];
            i -= 1;
        }
        self.held[p] = note;
        self.held_count = hc + 1;
        assert(self.held_notes() =~= h.take(p as int).push(note) + h.skip(p as int));
        p
    }

    /// Called when a key is released. Returns true if the arpeggiator
    /// handles the note (it is on).
    pub fn note_off(&mut self, note: u8) -> (r: bool)
        requires
            old(self).wf(),
        ensures
            final(self).wf(),
            arp_note_off_result(*old(self), *final(self), note, r),
    {
        if self.mode == ArpMode::Off {
            return false;
        }
        // Remove from held
        let ghost h = self.held_notes();
        let ghost arr = self.held@;
        let hc = self.held_count;
        let mut pos: usize = 0;
        while pos < hc && self.held[pos] != note
            invariant
                hc == self.held_count,
                hc <= MAX_HELD_NOTES,
                h == self.held_notes(),
                0 <= pos <= hc,
                forall|j: int| 0 <= j < pos ==> h[j] != note,
            decreases hc - pos,
        {
            pos += 1;
        }
        if pos < hc {
            let mut i: usize = pos;
            while i < hc - 1
                invariant
                    pos <= i <= hc - 1,
                    hc <= MAX_HELD_NOTES,
                    self.held_count == hc,
                    self.mode == old(self).mode,
                    self.range_octaves == old(self).range_octaves,
                    self.going_up == old(self).going_up,
                    self.current_note == old(self).current_note,
                    self.sequence_pos == old(self).sequence_pos,
                    self.sequence_len == old(self).sequence_len,
                    forall|j: int| 0 <= j < pos ==> self.held@[j] == arr[j],
                    forall|j: int| pos <= j < i ==> self.held@[j] == arr[j + 1],
                    forall|j: int| i <= j < MAX_HELD_NOTES ==> self.held@[j] == arr[j],
                decreases hc - 1 - i,
            {
                self.held[i] = self.held[i + 1];
                i += 1;
            }
            self.held_count = hc - 1;
            assert(self.held_notes() =~= h.remove(pos as int));
            assert(h[pos as int] == note);
            self.rebuild_sequence();
        } else {
            assert(!h.contains(note));
        }
        true
    }

    /// Advances the arpeggiator by one sample. `step_due` tells whether the
    /// tempo clock has crossed a step boundary on this sample. Returns the
    /// (note on, note off) pair, 0 meaning no event.
    pub fn tick(&mut self, step_due: bool) -> (r: (u8, u8))
        requires
            old(self).wf(),
        ensures
            final(self).wf(),
            arp_tick_result(*old(self), *final(self), step_due, r),
    {
        if self.mode == ArpMode::Off || self.sequence_len == 0 {
            let off = self.current_note;
            self.current_note = 0;
            return (0, off);
        }
        if !step_due {
            return (0, 0);
        }
        let note_off = self.current_note;
        // Get next note in sequence
        let base_note = self.next_in_sequence();
        self.current_note = base_note;
        (base_note, note_off)
    }

    fn next_in_sequence(&mut self) -> (n: u8)
        requires
            old(self).wf(),
            old(self).mode != ArpMode::Off,
            old(self).sequence_len > 0,
        ensures
            final(self).wf(),
            n == step_note(
                old(self).arp_mode(),
                old(self).held_notes(),
                old(self).range(),
                old(self).pos(),
                old(self).going_up(),
            ),
            final(self).held == old(self).held,
            final(self).held_count == old(self).held_count,
            final(self).mode == old(self).mode,
            final(self).range_octaves == old(self).range_octaves,
            final(self).current_note == old(self).current_note,
            final(self).sequence_len == old(self).sequence_len,
            final(self).sequence_pos == if old(self).sequence_pos + 1 >= old(self).sequence_len {
                0
            } else {
                old(self).sequence_pos + 1
            },
            final(self).going_up == if old(self).sequence_pos + 1 >= old(self).sequence_len
                && old(self).mode == ArpMode::UpDown {
                !old(self).going_up
            } else {
                old(self).going_up
            },
    {
        let total = self.sequence_len;
        let hc = self.held_count;
        let range = self.range_octaves as usize;
        let ghost h = self.held_notes();
        proof {
            lemma_octave_fits(self.sequence_pos as int, hc as int, range as int);
        }
        // Map sequence_pos to (note_index, octave); the octave lies below the
        // range, so a Down pass never runs past it.
        let note_idx = self.sequence_pos % hc;
        let octave = self.sequence_pos / hc;
        let rev_idx = hc - 1 - note_idx;
        let rev_oct = range - 1 - octave;
        assert(h[note_idx as int] == self.held@[note_idx as int]);
        assert(h[rev_idx as int] == self.held@[rev_idx as int]);
        // The note is formed in full width and capped at the end.
        let up = self.held[note_idx] as usize + octave * 12;
        let down = self.held[rev_idx] as usize + rev_oct * 12;
        let raw = match self.mode {
            ArpMode::Down => down,
            ArpMode::UpDown => if self.going_up {
                up
            } else {
                down
            },
            _ => up,
        };
        // Advance
        self.sequence_pos += 1;
        if self.sequence_pos >= total {
            self.sequence_pos = 0;
            if self.mode == ArpMode::UpDown {
                self.going_up = !self.going_up;
            }
        }
        if raw > MAX_ARP_NOTE as usize {
            MAX_ARP_NOTE
        } else {
            raw as u8
        }
    }

    /// Releases every held key and resets the sequence and the sounding note.
    pub fn all_off(&mut self)
        requires
            old(self).wf(),
        ensures
            final(self).wf(),
            final(self).arp_mode() == old(self).arp_mode(),
            final(self).range() == old(self).range(),
            final(self).going_up() == old(self).going_up(),
            final(self).held_notes() == Seq::<u8>::empty(),
            final(self).pos() == 0,
            final(self).seq_len() == 0,
            final(self).current_note() == 0,
    {
        self.held_count = 0;
        self.sequence_len = 0;
        self.sequence_pos = 0;
        self.current_note = 0;
        assert(self.held_notes() =~= Seq::<u8>::empty());
    }

    /// The arpeggiator is on and holds at least one key.
    pub fn is_active(&self) -> (b: bool)
        requires
            self.wf(),
        ensures
            b == (self.arp_mode() != ArpMode::Off && self.held_notes().len() > 0),
    {
        self.mode != ArpMode::Off && self.held_count > 0
    }

    /// The arpeggiator is on and its sequence is not empty, so that `tick`
    /// consumes the tempo clock.
    pub fn is_running(&self) -> (b: bool)
        ensures
            b == (self.arp_mode() != ArpMode::Off && self.seq_len() != 0),
    {
        self.mode != ArpMode::Off && self.sequence_len != 0
    }

    /// Selects the mode (the same as assigning `mode`).
    pub fn set_mode(&mut self, mode: ArpMode)
        requires
            old(self).wf(),
        ensures
            final(self).wf(),
            final(self).arp_mode() == mode,
            final(self).range() == old(self).range(),
            final(self).going_up() == old(self).going_up(),
            final(self).current_note() == old(self).current_note(),
            sequence_unchanged(*old(self), *final(self)),
    {
        self.mode = mode;
    }

    /// Sets the octave range and rebuilds the sequence for it at once: the
    /// length becomes held keys times the new range, and a position past the
    /// new end returns to 0.
    pub fn set_range_octaves(&mut self, range: u8)
        requires
            old(self).wf(),
        ensures
            final(self).wf(),
            final(self).range() == range,
            final(self).arp_mode() == old(self).arp_mode(),
            final(self).going_up() == old(self).going_up(),
            final(self).current_note() == old(self).current_note(),
            final(self).held_notes() == old(self).held_notes(),
            final(self).seq_len() == old(self).held_notes().len() * range,
            final(self).pos() == if old(self).pos() >= old(self).held_notes().len() * range {
                0
            } else {
                old(self).pos()
            },
    {
        self.range_octaves = range;
        self.rebuild_sequence();
    }
}

} // verus!
