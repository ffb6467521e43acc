//! Voice allocator with the JP-8 assign modes.
//!
//! Polyphonic modes hand out voices round-robin, starting after the voice
//! assigned last; when every voice in range is busy the quietest one is
//! stolen. Unison and Solo put every voice on the same note.

use vstd::prelude::*;

verus! {

/// Number of voices of the instrument.
pub const MAX_VOICES: usize = 8;

/// Voices that the Poly4 mode uses (the first four).
pub const POLY4_VOICES: usize = 4;

/// Envelope levels are handed to the allocator as order keys: the key of a
/// non-negative level is its IEEE-754 bit pattern, which orders like the level
/// itself. This is the key of the largest finite level; only voices whose key
/// lies below it are candidates for stealing.
pub const LEVEL_KEY_CEILING: u32 = 0x7F7F_FFFF;

/// JP-8 assign mode.
#[derive(Clone, Copy, PartialEq, Eq, Debug, Structural)]
pub enum AssignMode {
    /// Standard 8-voice polyphony.
    Poly8,
    /// 4 paired voices.
    Poly4,
    /// All 8 voices on one note.
    Unison,
    /// Monophonic.
    Solo,
}

/// Number of voices a polyphonic mode may use.
pub open spec fn poly_voices(mode: AssignMode) -> int {
    match mode {
        AssignMode::Poly4 => POLY4_VOICES as int,
        _ => MAX_VOICES as int,
    }
}

/// The voice that sits `k` places after voice `last` in round-robin order
/// over the first `max` voices.
pub open spec fn round_robin_slot(last: int, k: int, max: int) -> int {
    (last + 1 + k) % max
}

/// The least round-robin offset `k` with `from <= k < max` whose voice is
/// free, if there is one.
pub open spec fn first_free_offset(active: Seq<bool>, last: int, max: int, from: int) -> Option<int>
    decreases max - from,
{
    if from < 0 || from >= max {
        None
    } else if !active[round_robin_slot(last, from, max)] {
        Some(from)
    } else {
        first_free_offset(active, last, max, from + 1)
    }
}

/// `s` is the voice to steal among the first `max` voices: the first voice
/// holding the least level key, among keys below the ceiling; voice 0 when no
/// key lies below the ceiling.
pub open spec fn is_steal_choice(levels: Seq<u32>, max: int, s: int) -> bool {
    if forall|j: int| 0 <= j < max ==> levels[j] >= LEVEL_KEY_CEILING {
        s == 0
    } else {
        &&& 0 <= s < max
        &&& levels[s] < LEVEL_KEY_CEILING
        &&& forall|j: int| 0 <= j < max ==> levels[s] <= levels[j]
        &&& forall|j: int| 0 <= j < s ==> levels[s] < levels[j]
    }
}

/// The voice to steal is determined: two choices for the same levels agree.
pub proof fn lemma_steal_choice_unique(levels: Seq<u32>, max: int, s1: int, s2: int)
    requires
        is_steal_choice(levels, max, s1),
        is_steal_choice(levels, max, s2),
    ensures
        s1 == s2,
{
    if !(forall|j: int| 0 <= j < max ==> levels[j] >= LEVEL_KEY_CEILING) {
        if s1 < s2 {
            assert(levels[s2] < levels[s1]);
        } else if s2 < s1 {
            assert(levels[s1] < levels[s2]);
        }
    }
}

/// The assign mode that a parameter code selects: 0 Poly8, 1 Poly4,
/// 2 Unison, 3 Solo; any other code selects Poly8.
pub open spec fn assign_mode_of_code(code: u8) -> AssignMode {
    if code == 1 {
        AssignMode::Poly4
    } else if code == 2 {
        AssignMode::Unison
    } else if code == 3 {
        AssignMode::Solo
    } else {
        AssignMode::Poly8
    }
}

impl AssignMode {
    /// Decodes the parameter code of the assign mode.
    pub fn from_code(code: u8) -> (m: AssignMode)
        ensures
            m == assign_mode_of_code(code),
            code == 0 ==> m == AssignMode::Poly8,
            code == 1 ==> m == AssignMode::Poly4,
            code == 2 ==> m == AssignMode::Unison,
            code == 3 ==> m == AssignMode::Solo,
            code > 3 ==> m == AssignMode::Poly8,
    {
        match code {
            1 => AssignMode::Poly4,
            2 => AssignMode::Unison,
            3 => AssignMode::Solo,
            _ => AssignMode::Poly8,
        }
    }
}

/// What `note_on(note)` does in assign mode `mode` on the voices of `pre`:
/// `post` is the allocator after the call and `r` the voice it returned.
pub open spec fn note_on_result_in_mode(
    pre: VoiceAllocator,
    post: VoiceAllocator,
    note: u8,
    r: usize,
    mode: AssignMode,
) -> bool {
    &&& post.assign_mode() == mode
    &&& post.levels() == pre.levels()
    &&& match mode {
        AssignMode::Poly8 | AssignMode::Poly4 => {
            let max = poly_voices(mode);
            &&& r < max
            &&& post.active() == pre.active().update(r as int, true)
            &&& post.notes() == pre.notes().update(r as int, note)
            &&& post.last_assigned() == r
            &&& match first_free_offset(pre.active(), pre.last_assigned(), max, 0) {
                Some(k) => r == round_robin_slot(pre.last_assigned(), k, max),
                None => is_steal_choice(pre.levels(), max, r as int),
            }
        },
        _ => {
            &&& r == 0
            &&& post.active().len() == MAX_VOICES
            &&& post.notes().len() == MAX_VOICES
            &&& forall|i: int| 0 <= i < MAX_VOICES ==> #[trigger] post.active()[i]
            &&& forall|i: int| 0 <= i < MAX_VOICES ==> #[trigger] post.notes()[i] == note
            &&& post.last_assigned() == pre.last_assigned()
        },
    }
}

/// What `note_on(note)` does: `post` is the allocator after the call on `pre`
/// and `r` the voice it returned.
pub open spec fn note_on_result(pre: VoiceAllocator, post: VoiceAllocator, note: u8, r: usize) -> bool {
    note_on_result_in_mode(pre, post, note, r, pre.assign_mode())
}

/// What `note_off(note, released)` does: `post` is the allocator after the
/// call on `pre`, `rel_pre` and `rel_post` the `released` array before and
/// after, `count` the returned number. Every sounding voice that holds `note`
/// is silenced, and exactly those voices are listed in increasing order at
/// the front of `rel_post`.
pub open spec fn note_off_result(
    pre: VoiceAllocator,
    post: VoiceAllocator,
    note: u8,
    rel_pre: Seq<usize>,
    rel_post: Seq<usize>,
    count: usize,
) -> bool {
    &&& post.assign_mode() == pre.assign_mode()
    &&& post.last_assigned() == pre.last_assigned()
    &&& post.notes() == pre.notes()
    &&& post.levels() == pre.levels()
    &&& post.active().len() == MAX_VOICES
    &&& forall|i: int|
        0 <= i < MAX_VOICES ==> #[trigger] post.active()[i] == (pre.active()[i] && !(
        pre.notes()[i] == note))
    &&& count <= MAX_VOICES
    &&& rel_post.len() == MAX_VOICES
    &&& forall|k: int|
        #![trigger rel_post[k]]
        0 <= k < count ==> {
            &&& rel_post[k] < MAX_VOICES
            &&& pre.holds(rel_post[k] as int, note)
        }
    &&& forall|k1: int, k2: int| 0 <= k1 < k2 < count ==> rel_post[k1] < rel_post[k2]
    &&& forall|i: int|
        0 <= i < MAX_VOICES && #[trigger] pre.holds(i, note) ==> exists|k: int|
            0 <= k < count && rel_post[k] == i
    &&& forall|k: int| count <= k < MAX_VOICES ==> rel_post[k] == rel_pre[k]
}

/// The search for a free voice finds one exactly when one of the remaining
/// round-robin offsets names a free voice, and what it finds is free.
proof fn lemma_first_free_offset(active: Seq<bool>, last: int, max: int, from: int)
    requires
        0 <= from,
    ensures
        first_free_offset(active, last, max, from) matches Some(k) ==> from <= k < max
            && !active[round_robin_slot(last, k, max)] && forall|k2: int|
            from <= k2 < k ==> #[trigger] active[round_robin_slot(last, k2, max)],
        first_free_offset(active, last, max, from) is None ==> forall|k: int|
            from <= k < max ==> #[trigger] active[round_robin_slot(last, k, max)],
    decreases max - from,
{
    if from < max && active[round_robin_slot(last, from, max)] {
        lemma_first_free_offset(active, last, max, from + 1);
    }
}

/// Every one of the first `max` voices is reached by some round-robin offset.
proof fn lemma_round_robin_covers(last: int, max: int, j: int) -> (k: int)
    requires
        0 <= last < MAX_VOICES,
        max == MAX_VOICES || max == POLY4_VOICES,
        0 <= j < max,
    ensures
        0 <= k < max,
        round_robin_slot(last, k, max) == j,
{
    let k = if j >= (last + 1) % max {
        j - (last + 1) % max
    } else {
        j + max - (last + 1) % max
    };
    assert(round_robin_slot(last, k, max) == j) by (nonlinear_arith)
        requires
            max > 0,
            0 <= last,
            0 <= j < max,
            k == if j >= (last + 1) % max {
                j - (last + 1) % max
            } else {
                j + max - (last + 1) % max
            },
    ;
    k
}

/// A voice that `note_on(note)` hands out sounds `note` afterwards, and a
/// following `note_off(note)` lists it among the released voices and
/// silences it.
pub proof fn lemma_note_off_releases_assigned(
    a: VoiceAllocator,
    b: VoiceAllocator,
    c: VoiceAllocator,
    note: u8,
    r: usize,
    rel_pre: Seq<usize>,
    rel_post: Seq<usize>,
    count: usize,
)
    requires
        a.wf(),
        note_on_result(a, b, note, r),
        note_off_result(b, c, note, rel_pre, rel_post, count),
    ensures
        r < MAX_VOICES,
        b.holds(r as int, note),
        exists|k: int| 0 <= k < count && rel_post[k] == r,
        !c.active()[r as int],
{
    a.lemma_lengths();
    assert(b.holds(r as int, note));
}

/// In Poly8 and Poly4, `note_on` never takes a sounding voice while one of
/// the voices it may use is free.
pub proof fn lemma_note_on_prefers_free_voice(a: VoiceAllocator, b: VoiceAllocator, note: u8, r: usize)
    requires
        a.wf(),
        a.assign_mode() == AssignMode::Poly8 || a.assign_mode() == AssignMode::Poly4,
        note_on_result(a, b, note, r),
        exists|j: int| 0 <= j < poly_voices(a.assign_mode()) && !a.active()[j],
    ensures
        !a.active()[r as int],
{
    let max = poly_voices(a.assign_mode());
    let last = a.last_assigned();
    lemma_first_free_offset(a.active(), last, max, 0);
    if first_free_offset(a.active(), last, max, 0) is None {
        let j = choose|j: int| 0 <= j < max && !a.active()[j];
        let k = lemma_round_robin_covers(last, max, j);
        assert(a.active()[round_robin_slot(last, k, max)]);
        assert(false);
    }
}

/// The cyclic distance from voice `last` to voice `j` among `max` voices,
/// less one: 0 for the voice right after `last`, `max - 1` for `last` itself.
pub open spec fn cyclic_gap(last: int, j: int, max: int) -> int {
    (j - last - 1) % max
}

/// Voice `j` sits `cyclic_gap(last, j, max)` round-robin places after `last`.
proof fn lemma_cyclic_gap_slot(last: int, j: int, max: int)
    requires
        0 <= last,
        0 <= j < max,
    ensures
        0 <= cyclic_gap(last, j, max) < max,
        (last + 1 + cyclic_gap(last, j, max)) % max == j,
{
    let d = j - last - 1;
    let k = d % max;
    vstd::arithmetic::div_mod::lemma_fundamental_div_mod(d, max);
    vstd::arithmetic::div_mod::lemma_mod_bound(d, max);
    let q = d / max;
    assert(last + 1 + k == (-q) * max + j) by (nonlinear_arith)
        requires
            d == max * q + k,
            d == j - last - 1,
    ;
    vstd::arithmetic::div_mod::lemma_fundamental_div_mod_converse(last + 1 + k, max, -q, j);
}

/// The voice `k` round-robin places after `last` (for `0 <= k < max`) has
/// cyclic gap `k`.
proof fn lemma_slot_gap(last: int, k: int, max: int)
    requires
        0 <= last,
        0 <= k < max,
    ensures
        0 <= (last + 1 + k) % max < max,
        cyclic_gap(last, (last + 1 + k) % max, max) == k,
{
    let x = last + 1 + k;
    vstd::arithmetic::div_mod::lemma_fundamental_div_mod(x, max);
    vstd::arithmetic::div_mod::lemma_mod_bound(x, max);
    let q = x / max;
    let j = x % max;
    assert(j - last - 1 == (-q) * max + k) by (nonlinear_arith)
        requires
            x == max * q + j,
            x == last + 1 + k,
    ;
    vstd::arithmetic::div_mod::lemma_fundamental_div_mod_converse(j - last - 1, max, -q, k);
}

/// In Poly8 and Poly4, while one of the voices in range is free, `note_on`
/// takes the first free voice in cyclic order after the voice assigned last:
/// the free voice whose cyclic gap from it is the least.
pub proof fn lemma_note_on_takes_next_free_voice(a: VoiceAllocator, b: VoiceAllocator, note: u8, r: usize)
    requires
        a.wf(),
        a.assign_mode() == AssignMode::Poly8 || a.assign_mode() == AssignMode::Poly4,
        note_on_result(a, b, note, r),
        exists|j: int| 0 <= j < poly_voices(a.assign_mode()) && !a.active()[j],
    ensures
        r < poly_voices(a.assign_mode()),
        !a.active()[r as int],
        forall|j: int|
            0 <= j < poly_voices(a.assign_mode()) && !a.active()[j] ==> cyclic_gap(
                a.last_assigned(),
                r as int,
                poly_voices(a.assign_mode()),
            ) <= cyclic_gap(a.last_assigned(), j, poly_voices(a.assign_mode())),
{
    let max = poly_voices(a.assign_mode());
    let last = a.last_assigned();
    lemma_note_on_prefers_free_voice(a, b, note, r);
    lemma_first_free_offset(a.active(), last, max, 0);
    if let Some(k) = first_free_offset(a.active(), last, max, 0) {
        lemma_slot_gap(last, k, max);
        assert forall|j: int| 0 <= j < max && !a.active()[j] implies cyclic_gap(last, r as int, max)
            <= cyclic_gap(last, j, max) by {
            lemma_cyclic_gap_slot(last, j, max);
            let kj = cyclic_gap(last, j, max);
            if kj < k {
                assert(a.active()[round_robin_slot(last, kj, max)]);
                assert(false);
            }
        }
    } else {
        let j = choose|j: int| 0 <= j < max && !a.active()[j];
        lemma_cyclic_gap_slot(last, j, max);
        assert(a.active()[round_robin_slot(last, cyclic_gap(last, j, max), max)]);
    }
}

/// In Poly8 and Poly4, when every voice in range sounds, `note_on` steals the
/// quietest one: the first voice whose level key is the least of all, when
/// some key lies below the ceiling (keys at or above it mark levels that are
/// never stolen by preference), and voice 0 otherwise.
pub proof fn lemma_note_on_steals_quietest(a: VoiceAllocator, b: VoiceAllocator, note: u8, r: usize)
    requires
        a.wf(),
        a.assign_mode() == AssignMode::Poly8 || a.assign_mode() == AssignMode::Poly4,
        note_on_result(a, b, note, r),
        forall|j: int| 0 <= j < poly_voices(a.assign_mode()) ==> a.active()[j],
    ensures
        (exists|j: int| 0 <= j < poly_voices(a.assign_mode()) && a.levels()[j] < LEVEL_KEY_CEILING)
            ==> {
            &&& r < poly_voices(a.assign_mode())
            &&& a.levels()[r as int] < LEVEL_KEY_CEILING
            &&& forall|j: int|
                0 <= j < poly_voices(a.assign_mode()) ==> a.levels()[r as int] <= a.levels()[j]
            &&& forall|j: int| 0 <= j < r ==> a.levels()[r as int] < a.levels()[j]
        },
        (forall|j: int| 0 <= j < poly_voices(a.assign_mode()) ==> a.levels()[j] >= LEVEL_KEY_CEILING)
            ==> r == 0,
        b.notes()[r as int] == note,
        b.active()[r as int],
        b.last_assigned() == r,
{
    let max = poly_voices(a.assign_mode());
    let last = a.last_assigned();
    a.lemma_lengths();
    lemma_first_free_offset(a.active(), last, max, 0);
    if let Some(k) = first_free_offset(a.active(), last, max, 0) {
        lemma_slot_gap(last, k, max);
        assert(a.active()[round_robin_slot(last, k, max)]);
    }
}

/// In Poly8 and Poly4, two notes struck in a row get different voices when a
/// voice is still free for the second.
pub proof fn lemma_consecutive_notes_get_distinct_voices(
    a: VoiceAllocator,
    b: VoiceAllocator,
    c: VoiceAllocator,
    n1: u8,
    n2: u8,
    r1: usize,
    r2: usize,
)
    requires
        a.wf(),
        b.wf(),
        a.assign_mode() == AssignMode::Poly8 || a.assign_mode() == AssignMode::Poly4,
        note_on_result(a, b, n1, r1),
        note_on_result(b, c, n2, r2),
        exists|j: int| 0 <= j < poly_voices(b.assign_mode()) && !b.active()[j],
    ensures
        r1 != r2,
{
    a.lemma_lengths();
    lemma_note_on_prefers_free_voice(b, c, n2, r2);
    assert(b.active()[r1 as int]);
}

/// Voice `i` appears among the first `count` entries of `rel`.
spec fn listed(rel: Seq<usize>, count: usize, i: int) -> bool {
    exists|j: int| 0 <= j < count && rel[j] == i
}

/// A strictly increasing list of voice indices that names every voice is
/// the list of all voices in order.
proof fn lemma_all_voices_listed(rel: Seq<usize>, count: usize, k: int)
    requires
        count <= MAX_VOICES,
        0 <= k < MAX_VOICES,
        forall|i: int| 0 <= i < count ==> rel[i] < MAX_VOICES,
        forall|k1: int, k2: int| 0 <= k1 < k2 < count ==> rel[k1] < rel[k2],
        forall|i: int| 0 <= i < MAX_VOICES ==> #[trigger] listed(rel, count, i),
    ensures
        k < count,
        rel[k] == k,
    decreases k,
{
    assert(listed(rel, count, k));
    let j = choose|j: int| 0 <= j < count && rel[j] == k;
    if k > 0 {
        lemma_all_voices_listed(rel, count, k - 1);
        if j < k {
            if j < k - 1 {
                assert(rel[j] < rel[k - 1]);
            }
        }
        if j > k {
            assert(rel[k - 1] < rel[k] < rel[j]);
        }
    } else {
        if j > 0 {
            assert(rel[0] < rel[j]);
        }
    }
}

/// When every voice holds `note`, a `note_off(note)` lists all eight voices
/// in order and silences them all.
pub proof fn lemma_all_holders_listed(
    b: VoiceAllocator,
    c: VoiceAllocator,
    note: u8,
    rel_pre: Seq<usize>,
    rel_post: Seq<usize>,
    count: usize,
)
    requires
        forall|i: int| 0 <= i < MAX_VOICES ==> #[trigger] b.holds(i, note),
        note_off_result(b, c, note, rel_pre, rel_post, count),
    ensures
        count == MAX_VOICES,
        forall|i: int| 0 <= i < MAX_VOICES ==> rel_post[i] == i,
        forall|i: int| 0 <= i < MAX_VOICES ==> !c.active()[i],
{
    assert forall|i: int| 0 <= i < MAX_VOICES implies #[trigger] listed(rel_post, count, i) by {
        assert(b.holds(i, note));
    }
    assert forall|i: int| 0 <= i < MAX_VOICES implies rel_post[i] == i by {
        lemma_all_voices_listed(rel_post, count, i);
    }
    lemma_all_voices_listed(rel_post, count, MAX_VOICES - 1);
    assert forall|i: int| 0 <= i < MAX_VOICES implies !c.active()[i] by {
        assert(c.active()[i] == (b.active()[i] && !(b.notes()[i] == note)));
        assert(b.holds(i, note));
    }
}

/// In Unison and Solo, a note puts every voice on it, and releasing that
/// note releases all eight voices, listed in order.
pub proof fn lemma_unison_release_all(
    a: VoiceAllocator,
    b: VoiceAllocator,
    c: VoiceAllocator,
    note: u8,
    r: usize,
    rel_pre: Seq<usize>,
    rel_post: Seq<usize>,
    count: usize,
)
    requires
        a.wf(),
        a.assign_mode() == AssignMode::Unison || a.assign_mode() == AssignMode::Solo,
        note_on_result(a, b, note, r),
        note_off_result(b, c, note, rel_pre, rel_post, count),
    ensures
        forall|i: int| 0 <= i < MAX_VOICES ==> b.holds(i, note),
        count == MAX_VOICES,
        forall|i: int| 0 <= i < MAX_VOICES ==> rel_post[i] == i,
        forall|i: int| 0 <= i < MAX_VOICES ==> !c.active()[i],
{
    assert forall|i: int| 0 <= i < MAX_VOICES implies #[trigger] b.holds(i, note) by {
        assert(b.active()[i]);
        assert(b.notes()[i] == note);
    }
    lemma_all_holders_listed(b, c, note, rel_pre, rel_post, count);
}

/// Voice allocator state: which voices sound, which note each holds, the
/// level key of each voice's amplitude envelope, and the voice assigned last.
pub struct VoiceAllocator {
    voices_active: [bool; MAX_VOICES],
    voices_note: [u8; MAX_VOICES],
    voices_env_level: [u32; MAX_VOICES],
    last_assigned: usize,
    pub mode: AssignMode,
}

impl VoiceAllocator {
    /// Whether each voice is sounding.
    pub closed spec fn active(&self) -> Seq<bool> {
        self.voices_active@
    }

    /// The note each voice holds.
    pub closed spec fn notes(&self) -> Seq<u8> {
        self.voices_note@
    }

    /// The envelope level key of each voice.
    pub closed spec fn levels(&self) -> Seq<u32> {
        self.voices_env_level@
    }

    /// The current assign mode.
    pub closed spec fn assign_mode(&self) -> AssignMode {
        self.mode
    }

    /// The voice assigned last.
    pub closed spec fn last_assigned(&self) -> int {
        self.last_assigned as int
    }

    /// The allocator's invariant.
    pub closed spec fn wf(&self) -> bool {
        self.last_assigned < MAX_VOICES
    }

    /// Voices of `self` that sound `note`.
    pub open spec fn holds(&self, voice: int, note: u8) -> bool {
        self.active()[voice] && self.notes()[voice] == note
    }

    /// The per-voice sequences have one entry per voice.
    pub proof fn lemma_lengths(&self)
        ensures
            self.active().len() == MAX_VOICES,
            self.notes().len() == MAX_VOICES,
            self.levels().len() == MAX_VOICES,
    {
    }

    /// A fresh allocator: all voices silent, Poly8 mode.
    pub fn new() -> (a: Self)
        ensures
            a.wf(),
            a.assign_mode() == AssignMode::Poly8,
            a.last_assigned() == 0,
            a.active() == Seq::new(MAX_VOICES as nat, |i: int| false),
            a.notes() == Seq::new(MAX_VOICES as nat, |i: int| 0u8),
            a.levels() == Seq::new(MAX_VOICES as nat, |i: int| 0u32),
    {
        let a = VoiceAllocator {
            voices_active: [false; MAX_VOICES],
            voices_note: [0; MAX_VOICES],
            voices_env_level: [0; MAX_VOICES],
            last_assigned: 0,
            mode: AssignMode::Poly8,
        };
        assert(a.active() =~= Seq::new(MAX_VOICES as nat, |i: int| false));
        assert(a.notes() =~= Seq::new(MAX_VOICES as nat, |i: int| 0u8));
        assert(a.levels() =~= Seq::new(MAX_VOICES as nat, |i: int| 0u32));
        a
    }

    /// Allocates a voice for `note` and returns its index.
    ///
    /// Poly8 and Poly4 take the first free voice in round-robin order after
    /// the voice assigned last, among the first 8 or 4 voices; when none is
    /// free they steal the quietest one. Unison and Solo put every voice on
    /// `note` and return 0.
    pub fn note_on(&mut self, note: u8) -> (r: usize)
        requires
            old(self).wf(),
        ensures
            final(self).wf(),
            note_on_result(*old(self), *final(self), note, r),
    {
        match self.mode {
            AssignMode::Poly8 => self.alloc_poly(note, MAX_VOICES),
            AssignMode::Poly4 => self.alloc_poly(note, POLY4_VOICES),
            AssignMode::Unison | AssignMode::Solo => {
                // All voices play the same note
                for i in 0..MAX_VOICES
                    invariant
                        self.wf(),
                        self.mode == old(self).mode,
                        self.last_assigned == old(self).last_assigned,
                        self.voices_env_level == old(self).voices_env_level,
                        forall|j: int| 0 <= j < i ==> self.voices_active@[j],
                        forall|j: int| 0 <= j < i ==> self.voices_note@[j] == note,
                {
                    self.voices_active[i] = true;
                    self.voices_note[i] = note;
                }
                0
            },
        }
    }

    fn alloc_poly(&mut self, note: u8, max: usize) -> (r: usize)
        requires
            old(self).wf(),
            max == MAX_VOICES || max == POLY4_VOICES,
        ensures
            final(self).wf(),
            final(self).mode == old(self).mode,
            final(self).levels() == old(self).levels(),
            r < max,
            final(self).active() == old(self).active().update(r as int, true),
            final(self).notes() == old(self).notes().update(r as int, note),
            final(self).last_assigned() == r,
            match first_free_offset(old(self).active(), old(self).last_assigned(), max as int, 0) {
                Some(k) => r == round_robin_slot(old(self).last_assigned(), k, max as int),
                None => is_steal_choice(old(self).levels(), max as int, r as int),
            },
    {
        let ghost active = self.active();
        let ghost last = self.last_assigned();
        // First: find a free voice
        let mut i: usize = 0;
        while i < max
            invariant
                0 <= i <= max,
                max == MAX_VOICES || max == POLY4_VOICES,
                *self == *old(self),
                active == self.active(),
                last == self.last_assigned(),
                self.wf(),
                first_free_offset(active, last, max as int, 0)
                    == first_free_offset(active, last, max as int, i as int),
            decreases max - i,
        {
            let idx = (self.last_assigned + 1 + i) % max;
            if !self.voices_active[idx] {
                self.voices_active[idx] = true;
                self.voices_note[idx] = note;
                self.last_assigned = idx;
                return idx;
            }
            i += 1;
        }
        // Steal: voice with lowest envelope level
        let mut steal_idx: usize = 0;
        let mut min_level: u32 = LEVEL_KEY_CEILING;
        let ghost levels = self.levels();
        for j in 0..max
            invariant
                max == MAX_VOICES || max == POLY4_VOICES,
                levels == self.levels(),
                min_level <= LEVEL_KEY_CEILING,
                min_level == LEVEL_KEY_CEILING ==> steal_idx == 0 && forall|k: int|
                    0 <= k < j ==> levels[k] >= LEVEL_KEY_CEILING,
                min_level < LEVEL_KEY_CEILING ==> steal_idx < j && levels[steal_idx as int]
                    == min_level,
                forall|k: int| 0 <= k < j ==> min_level <= levels[k],
                forall|k: int| 0 <= k < steal_idx ==> min_level < levels[k],
        {
            if self.voices_env_level[j] < min_level {
                min_level = self.voices_env_level[j];
                steal_idx = j;
            }
        }
        self.voices_active[steal_idx] = true;
        self.voices_note[steal_idx] = note;
        self.last_assigned = steal_idx;
        steal_idx
    }

    /// Releases every sounding voice that holds `note`. Their indices are
    /// written, in increasing order, to the front of `released`; the rest of
    /// `released` is left as it was. Returns how many voices were released.
    pub fn note_off(&mut self, note: u8, released: &mut [usize; MAX_VOICES]) -> (count: usize)
        requires
            old(self).wf(),
        ensures
            final(self).wf(),
            note_off_result(*old(self), *final(self), note, old(released)@, final(released)@, count),
    {
        let mut count: usize = 0;
        let ghost pre = *self;
        for i in 0..MAX_VOICES
            invariant
                count <= i,
                self.wf(),
                self.mode == pre.mode,
                self.last_assigned == pre.last_assigned,
                self.voices_note == pre.voices_note,
                self.voices_env_level == pre.voices_env_level,
                forall|j: int|
                    0 <= j < i ==> self.voices_active@[j] == (pre.active()[j] && !(
                    pre.notes()[j] == note)),
                forall|j: int| i <= j < MAX_VOICES ==> self.voices_active@[j] == pre.active()[j],
                forall|k: int|
                    #![trigger released@[k]]
                    0 <= k < count ==> {
                        &&& released@[k] < i
                        &&& pre.holds(released@[k] as int, note)
                    },
                forall|k1: int, k2: int| 0 <= k1 < k2 < count ==> released@[k1] < released@[k2],
                forall|j: int|
                    0 <= j < i && #[trigger] pre.holds(j, note) ==> exists|k: int|
                        0 <= k < count && released@[k] == j,
                forall|k: int| count <= k < MAX_VOICES ==> released@[k] == old(released)@[k],
        {
            let ghost count0 = count;
            let ghost released0 = released@;
            if self.voices_active[i] && self.voices_note[i] == note {
                self.voices_active[i] = false;
                released[count] = i;
                count += 1;
            }
            assert forall|j: int|
                0 <= j < i + 1 && #[trigger] pre.holds(j, note) implies exists|k: int|
                    0 <= k < count && released@[k] == j by {
                if j == i {
                    assert(released@[count - 1] == j);
                } else {
                    let k = choose|k: int| 0 <= k < count0 && released0[k] == j;
                    assert(released@[k] == j);
                }
            }
        }
        assert(released@.len() == MAX_VOICES);
        count
    }

    /// Records the envelope level key of a voice for stealing decisions; an
    /// index out of range is ignored.
    pub fn update_env_level(&mut self, voice: usize, level: u32)
        requires
            old(self).wf(),
        ensures
            final(self).wf(),
            final(self).assign_mode() == old(self).assign_mode(),
            final(self).last_assigned() == old(self).last_assigned(),
            final(self).active() == old(self).active(),
            final(self).notes() == old(self).notes(),
            final(self).levels() == if voice < MAX_VOICES {
                old(self).levels().update(voice as int, level)
            } else {
                old(self).levels()
            },
    {
        if voice < MAX_VOICES {
            self.voices_env_level[voice] = level;
        }
    }

    /// Marks a voice as sounding `note`, whatever the assign mode; an index
    /// out of range is ignored.
    pub fn mark_active(&mut self, voice: usize, note: u8)
        requires
            old(self).wf(),
        ensures
            final(self).wf(),
            final(self).assign_mode() == old(self).assign_mode(),
            final(self).last_assigned() == old(self).last_assigned(),
            final(self).levels() == old(self).levels(),
            final(self).active() == if voice < MAX_VOICES {
                old(self).active().update(voice as int, true)
            } else {
                old(self).active()
            },
            final(self).notes() == if voice < MAX_VOICES {
                old(self).notes().update(voice as int, note)
            } else {
                old(self).notes()
            },
    {
        if voice < MAX_VOICES {
            self.voices_active[voice] = true;
            self.voices_note[voice] = note;
        }
    }

    /// Silences every voice; notes, levels and the round-robin position stay.
    pub fn all_off(&mut self)
        requires
            old(self).wf(),
        ensures
            final(self).wf(),
            final(self).assign_mode() == old(self).assign_mode(),
            final(self).last_assigned() == old(self).last_assigned(),
            final(self).notes() == old(self).notes(),
            final(self).levels() == old(self).levels(),
            final(self).active() == Seq::new(MAX_VOICES as nat, |i: int| false),
    {
        self.voices_active = [false; MAX_VOICES];
        assert(self.active() =~= Seq::new(MAX_VOICES as nat, |i: int| false));
    }

    /// Selects the assign mode (the same as assigning `mode`).
    pub fn set_mode(&mut self, mode: AssignMode)
        requires
            old(self).wf(),
        ensures
            final(self).wf(),
            final(self).assign_mode() == mode,
            final(self).last_assigned() == old(self).last_assigned(),
            final(self).active() == old(self).active(),
            final(self).notes() == old(self).notes(),
            final(self).levels() == old(self).levels(),
    {
        self.mode = mode;
    }
}

} // verus!
