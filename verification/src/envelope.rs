//! Stage sequencing of the ADSR envelope generator.
//!
//! The envelope's level and rates are audio-rate arithmetic; the stage it is
//! in moves on events: a note-on or note-off, or the level reaching the
//! target of the current segment (full scale in Attack, the sustain level in
//! Decay, silence in Release).

use vstd::prelude::*;

verus! {

/// Stage of an ADSR envelope.
#[derive(Clone, Copy, PartialEq, Eq, Debug, Structural)]
pub enum EnvStage {
    Idle,
    Attack,
    Decay,
    Sustain,
    Release,
}

/// The stage changes an envelope can make in one event: a note-on
/// (any stage to Attack), a note-off (any sounding stage to Release), a
/// segment reaching its target (Attack to Decay, Decay to Sustain, Release
/// to Idle), or staying where it is.
pub open spec fn allowed_transition(from: EnvStage, to: EnvStage) -> bool {
    ||| from == to
    ||| to == EnvStage::Attack
    ||| (to == EnvStage::Release && from != EnvStage::Idle)
    ||| (from == EnvStage::Attack && to == EnvStage::Decay)
    ||| (from == EnvStage::Decay && to == EnvStage::Sustain)
    ||| (from == EnvStage::Release && to == EnvStage::Idle)
}

impl EnvStage {
    /// The stage after a note-on: Attack (a retrigger starts from the
    /// current level).
    pub fn after_gate_on(self) -> (s: EnvStage)
        ensures
            s == EnvStage::Attack,
    {
        EnvStage::Attack
    }

    /// The stage after a note-off: Release, unless the envelope is idle.
    pub fn after_gate_off(self) -> (s: EnvStage)
        ensures
            s == if self == EnvStage::Idle {
                EnvStage::Idle
            } else {
                EnvStage::Release
            },
    {
        if self != EnvStage::Idle {
            EnvStage::Release
        } else {
            self
        }
    }

    /// The stage after one sample, given whether the level reached the target
    /// of the current segment on it.
    pub fn after_tick(self, target_reached: bool) -> (s: EnvStage)
        ensures
            s == match self {
                EnvStage::Attack => if target_reached {
                    EnvStage::Decay
                } else {
                    EnvStage::Attack
                },
                EnvStage::Decay => if target_reached {
                    EnvStage::Sustain
                } else {
                    EnvStage::Decay
                },
                EnvStage::Release => if target_reached {
                    EnvStage::Idle
                } else {
                    EnvStage::Release
                },
                other => other,
            },
    {
        match self {
            EnvStage::Attack => if target_reached {
                EnvStage::Decay
            } else {
                EnvStage::Attack
            },
            EnvStage::Decay => if target_reached {
                EnvStage::Sustain
            } else {
                EnvStage::Decay
            },
            EnvStage::Release => if target_reached {
                EnvStage::Idle
            } else {
                EnvStage::Release
            },
            other => other,
        }
    }

    /// The envelope sounds in every stage but Idle.
    pub fn is_active(self) -> (b: bool)
        ensures
            b == (self != EnvStage::Idle),
    {
        self != EnvStage::Idle
    }
}

/// Every event moves the envelope along an allowed transition; in
/// particular only Release falls to Idle, and a note-off never wakes an
/// idle envelope.
pub proof fn lemma_stage_transitions_allowed(from: EnvStage, reached: bool)
    ensures
        allowed_transition(from, EnvStage::Attack),
        allowed_transition(
            from,
            if from == EnvStage::Idle {
                EnvStage::Idle
            } else {
                EnvStage::Release
            },
        ),
        allowed_transition(
            from,
            match from {
                EnvStage::Attack => if reached {
                    EnvStage::Decay
                } else {
                    EnvStage::Attack
                },
                EnvStage::Decay => if reached {
                    EnvStage::Sustain
                } else {
                    EnvStage::Decay
                },
                EnvStage::Release => if reached {
                    EnvStage::Idle
                } else {
                    EnvStage::Release
                },
                other => other,
            },
        ),
{
}

} // verus!
