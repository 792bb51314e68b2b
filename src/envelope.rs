//! Stage selection of the ADSR envelope, on time counted in sample ticks.
//!
//! A voice's elapsed times are whole numbers of sample periods, and so are
//! the envelope's durations: a duration of `d` seconds at sample rate `f`
//! is `d * f` rounded to a whole tick. A voice `n` ticks into a stage `m`
//! ticks long is still in it while `n < m`. The gain within a stage is
//! computed by the host from these counts.
use vstd::prelude::*;

verus! {

/// Which part of the envelope a voice is in.
#[derive(Clone, Copy, Debug, PartialEq, Eq, Structural)]
pub enum Stage {
    /// Ramping from the voice's start volume up to full level.
    Attack,
    /// Ramping from full level down to the sustain level.
    Decay,
    /// Holding the sustain level.
    Sustain,
    /// Released for at least the release time: the voice is silent and is
    /// dropped.
    Finished,
}

/// The three durations of an ADSR envelope, in sample ticks. (The sustain
/// level is a gain, not a duration, and is applied by the host.)
#[derive(Clone, Copy, Debug, PartialEq, Eq, Structural)]
pub struct EnvelopeTiming {
    pub attack: u64,
    pub decay: u64,
    pub release: u64,
}

impl EnvelopeTiming {
    /// The stage of a voice pressed `pressed_ticks` ago and, when
    /// `released`, released `released_ticks` ago. The release ends the
    /// voice once its time is up; until then the pressed time decides.
    pub open spec fn stage_spec(self, pressed_ticks: u64, released: bool, released_ticks: u64) -> Stage {
        if released && released_ticks >= self.release {
            Stage::Finished
        } else if pressed_ticks < self.attack {
            Stage::Attack
        } else if pressed_ticks < self.attack + self.decay {
            Stage::Decay
        } else {
            Stage::Sustain
        }
    }

    /// An envelope with the given durations in ticks.
    pub fn new(attack: u64, decay: u64, release: u64) -> (r: EnvelopeTiming)
        ensures
            r == (EnvelopeTiming { attack, decay, release }),
    {
        EnvelopeTiming { attack, decay, release }
    }

    /// The stage of a voice, as `stage_spec` describes.
    pub fn stage(&self, pressed_ticks: u64, released: bool, released_ticks: u64) -> (r: Stage)
        ensures
            r == self.stage_spec(pressed_ticks, released, released_ticks),
    {
        if released && released_ticks >= self.release {
            Stage::Finished
        } else if pressed_ticks < self.attack {
            Stage::Attack
        } else if pressed_ticks - self.attack < self.decay {
            Stage::Decay
        } else {
            Stage::Sustain
        }
    }
}

} // verus!
