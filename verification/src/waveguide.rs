//! Position bookkeeping of the commuted waveguide: the playhead over the
//! pre-convolved wavetable, the retrigger crossfade counter, and the read and
//! write positions of the circular delay line.

use vstd::prelude::*;

verus! {

/// Size of the circular delay line.
pub const MAX_DELAY: usize = 2048;

/// Capacity of the wavetable.
pub const MAX_WAVETABLE: usize = 16384;

/// Length of the crossfade on retrigger, in samples.
pub const FADE_SAMPLES: usize = 128;

/// Shortest delay line length.
pub const MIN_DELAY_LENGTH: usize = 2;

/// Delay line length of a new waveguide.
pub const DEFAULT_DELAY_LENGTH: usize = 200;

/// Number of excitation samples a wavetable can be built from.
pub const NUM_EXCITATIONS: usize = 6;

/// Number of body responses a wavetable can be built from.
pub const NUM_BODIES: usize = 5;

/// Number of cached wavetables, one per (excitation, body) pair.
pub const NUM_WAVETABLE_SLOTS: usize = 30;

/// Cache slot of the wavetable built from excitation `exc` and body `body`,
/// if both indices exist.
pub fn wavetable_slot(exc: u8, body: u8) -> (r: Option<usize>)
    ensures
        r == if exc < NUM_EXCITATIONS && body < NUM_BODIES {
            Some((exc * NUM_BODIES + body) as usize)
        } else {
            None::<usize>
        },
        r matches Some(i) ==> i < NUM_WAVETABLE_SLOTS,
{
    let e = exc as usize;
    let b = body as usize;
    if e < NUM_EXCITATIONS && b < NUM_BODIES {
        Some(e * NUM_BODIES + b)
    } else {
        None
    }
}

/// Distinct (excitation, body) pairs never share a cache slot.
pub proof fn lemma_wavetable_slots_distinct(e1: u8, b1: u8, e2: u8, b2: u8)
    requires
        e1 < NUM_EXCITATIONS && b1 < NUM_BODIES,
        e2 < NUM_EXCITATIONS && b2 < NUM_BODIES,
        e1 * NUM_BODIES + b1 == e2 * NUM_BODIES + b2,
    ensures
        e1 == e2 && b1 == b2,
{
}

/// The delay position that lies `length` samples behind `write`.
pub open spec fn delay_read_index(write: int, length: int) -> int {
    (write + MAX_DELAY - length) % (MAX_DELAY as int)
}

/// Positions of a waveguide voice.
pub struct WaveguideCursor {
    wavetable_len: usize,
    wavetable_pos: usize,
    wavetable_playing: bool,
    delay_write: usize,
    delay_length: usize,
    fade_remaining: usize,
}

impl WaveguideCursor {
    /// Number of valid wavetable samples.
    pub closed spec fn table_len(&self) -> int {
        self.wavetable_len as int
    }

    /// Next wavetable sample to play.
    pub closed spec fn table_pos(&self) -> int {
        self.wavetable_pos as int
    }

    /// Whether the wavetable is playing.
    pub closed spec fn playing(&self) -> bool {
        self.wavetable_playing
    }

    /// Delay line write position.
    pub closed spec fn write_pos(&self) -> int {
        self.delay_write as int
    }

    /// Delay line length in samples.
    pub closed spec fn length(&self) -> int {
        self.delay_length as int
    }

    /// Crossfade samples left.
    pub closed spec fn fade(&self) -> int {
        self.fade_remaining as int
    }

    #[verifier::type_invariant]
    spec fn inv(&self) -> bool {
        &&& self.wavetable_len <= MAX_WAVETABLE
        &&& self.delay_write < MAX_DELAY
        &&& MIN_DELAY_LENGTH <= self.delay_length < MAX_DELAY
        &&& self.fade_remaining <= FADE_SAMPLES
    }

    /// Positions of a new waveguide: empty wavetable, delay of 200 samples.
    pub fn new() -> (c: Self)
        ensures
            c.table_len() == 0,
            c.table_pos() == 0,
            !c.playing(),
            c.write_pos() == 0,
            c.length() == DEFAULT_DELAY_LENGTH,
            c.fade() == 0,
    {
        WaveguideCursor {
            wavetable_len: 0,
            wavetable_pos: 0,
            wavetable_playing: false,
            delay_write: 0,
            delay_length: DEFAULT_DELAY_LENGTH,
            fade_remaining: 0,
        }
    }

    /// Number of valid wavetable samples.
    pub fn wavetable_len(&self) -> (r: usize)
        ensures
            r == self.table_len(),
            r <= MAX_WAVETABLE,
    {
        proof {
            use_type_invariant(self);
        }
        self.wavetable_len
    }

    /// Delay line length in samples.
    pub fn delay_length(&self) -> (r: usize)
        ensures
            r == self.length(),
            MIN_DELAY_LENGTH <= r < MAX_DELAY,
    {
        proof {
            use_type_invariant(self);
        }
        self.delay_length
    }

    /// A new wavetable of `data_len` samples is loaded; only the first
    /// `MAX_WAVETABLE` fit. Returns how many samples to copy.
    pub fn load_wavetable(&mut self, data_len: usize) -> (n: usize)
        ensures
            n == vstd::math::min(data_len as int, MAX_WAVETABLE as int),
            final(self).table_len() == n,
            final(self).table_pos() == old(self).table_pos(),
            final(self).playing() == old(self).playing(),
            final(self).write_pos() == old(self).write_pos(),
            final(self).length() == old(self).length(),
            final(self).fade() == old(self).fade(),
    {
        proof {
            use_type_invariant(&*self);
        }
        let n = if data_len < MAX_WAVETABLE {
            data_len
        } else {
            MAX_WAVETABLE
        };
        self.wavetable_len = n;
        n
    }

    /// Sets the delay length from the pitch period in whole samples, held to
    /// [2, 2047].
    pub fn set_period(&mut self, period: usize)
        ensures
            final(self).length() == if period < MIN_DELAY_LENGTH {
                MIN_DELAY_LENGTH as int
            } else if period > MAX_DELAY - 1 {
                (MAX_DELAY - 1) as int
            } else {
                period as int
            },
            final(self).table_len() == old(self).table_len(),
            final(self).table_pos() == old(self).table_pos(),
            final(self).playing() == old(self).playing(),
            final(self).write_pos() == old(self).write_pos(),
            final(self).fade() == old(self).fade(),
    {
        proof {
            use_type_invariant(&*self);
        }
        self.delay_length = if period < MIN_DELAY_LENGTH {
            MIN_DELAY_LENGTH
        } else if period > MAX_DELAY - 1 {
            MAX_DELAY - 1
        } else {
            period
        };
    }

    /// Restarts wavetable playback (if there is a wavetable) and starts the
    /// crossfade.
    pub fn trigger(&mut self)
        ensures
            final(self).table_pos() == 0,
            final(self).playing() == (old(self).table_len() > 0),
            final(self).fade() == FADE_SAMPLES,
            final(self).table_len() == old(self).table_len(),
            final(self).write_pos() == old(self).write_pos(),
            final(self).length() == old(self).length(),
    {
        proof {
            use_type_invariant(&*self);
        }
        self.wavetable_pos = 0;
        self.wavetable_playing = self.wavetable_len > 0;
        self.fade_remaining = FADE_SAMPLES;
    }

    /// The wavetable sample to play now, if any, and the playhead advance;
    /// playback stops after the last sample.
    pub fn next_excitation(&mut self) -> (r: Option<usize>)
        ensures
            r == if old(self).playing() && old(self).table_pos() < old(self).table_len() {
                Some(old(self).table_pos() as usize)
            } else {
                None::<usize>
            },
            r matches Some(i) ==> i < old(self).table_len() <= MAX_WAVETABLE,
            final(self).table_pos() == if r is Some {
                old(self).table_pos() + 1
            } else {
                old(self).table_pos()
            },
            final(self).playing() == (old(self).playing() && (r is None || old(self).table_pos()
                + 1 < old(self).table_len())),
            final(self).table_len() == old(self).table_len(),
            final(self).write_pos() == old(self).write_pos(),
            final(self).length() == old(self).length(),
            final(self).fade() == old(self).fade(),
    {
        proof {
            use_type_invariant(&*self);
        }
        if self.wavetable_playing && self.wavetable_pos < self.wavetable_len {
            let i = self.wavetable_pos;
            self.wavetable_pos += 1;
            if self.wavetable_pos >= self.wavetable_len {
                self.wavetable_playing = false;
            }
            Some(i)
        } else {
            None
        }
    }

    /// The crossfade samples left before this one, if a crossfade runs, and
    /// the count down.
    pub fn next_fade(&mut self) -> (r: Option<usize>)
        ensures
            r == if old(self).fade() > 0 {
                Some(old(self).fade() as usize)
            } else {
                None::<usize>
            },
            final(self).fade() == if old(self).fade() > 0 {
                old(self).fade() - 1
            } else {
                0
            },
            r matches Some(t) ==> 0 < t <= FADE_SAMPLES,
            final(self).table_len() == old(self).table_len(),
            final(self).table_pos() == old(self).table_pos(),
            final(self).playing() == old(self).playing(),
            final(self).write_pos() == old(self).write_pos(),
            final(self).length() == old(self).length(),
    {
        proof {
            use_type_invariant(&*self);
        }
        if self.fade_remaining > 0 {
            let t = self.fade_remaining;
            self.fade_remaining -= 1;
            Some(t)
        } else {
            None
        }
    }

    /// The delay line position written on this sample.
    pub fn write_index(&self) -> (r: usize)
        ensures
            r == self.write_pos(),
            r < MAX_DELAY,
    {
        proof {
            use_type_invariant(self);
        }
        self.delay_write
    }

    /// The delay line position read on this sample: `length` behind the
    /// write position.
    pub fn read_index(&self) -> (r: usize)
        ensures
            r == delay_read_index(self.write_pos(), self.length()),
            r < MAX_DELAY,
    {
        proof {
            use_type_invariant(self);
        }
        (self.delay_write + MAX_DELAY - self.delay_length) % MAX_DELAY
    }

    /// Moves the write position on by one, around the ring.
    pub fn advance_write(&mut self)
        ensures
            final(self).write_pos() == (old(self).write_pos() + 1) % (MAX_DELAY as int),
            final(self).table_len() == old(self).table_len(),
            final(self).table_pos() == old(self).table_pos(),
            final(self).playing() == old(self).playing(),
            final(self).length() == old(self).length(),
            final(self).fade() == old(self).fade(),
    {
        proof {
            use_type_invariant(&*self);
        }
        self.delay_write = (self.delay_write + 1) % MAX_DELAY;
    }

    /// Rewinds the delay line and stops playback.
    pub fn reset(&mut self)
        ensures
            final(self).write_pos() == 0,
            final(self).table_pos() == 0,
            !final(self).playing(),
            final(self).table_len() == old(self).table_len(),
            final(self).length() == old(self).length(),
            final(self).fade() == old(self).fade(),
    {
        proof {
            use_type_invariant(&*self);
        }
        self.delay_write = 0;
        self.wavetable_pos = 0;
        self.wavetable_playing = false;
    }
}

/// The sample read from the delay line is the one written `length` samples
/// earlier: stepping the read position forward by `length` around the ring
/// gives the write position.
pub proof fn lemma_read_trails_write(write: int, length: int)
    requires
        0 <= write < MAX_DELAY,
        0 < length < MAX_DELAY,
    ensures
        0 <= delay_read_index(write, length) < MAX_DELAY,
        (delay_read_index(write, length) + length) % (MAX_DELAY as int) == write,
{
}

} // verus!
