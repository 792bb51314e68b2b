//! The state of one sounding or releasing note, and its transitions.
//!
//! Gains are carried as values of a type `G` chosen by the host (a float
//! there); this crate only copies them from one field to another, which is
//! all the voice logic ever does with them.
use vstd::prelude::*;

use crate::envelope::{EnvelopeTiming, Stage};

verus! {

/// One voice: the note `key`, how hard it was struck, whether it has been
/// let go, and how long ago (in sample ticks) it was pressed and released.
/// `start_volume` is the gain captured at the latest press or release, the
/// point the envelope ramps away from; `last_volume` is the gain of the
/// latest tick.
#[derive(Clone, Copy, Debug)]
pub struct KeyState<G> {
    pub key: u8,
    pub velocity: u8,
    pub last_volume: G,
    pub start_volume: G,
    pub is_released: bool,
    pub ticks_since_pressed: u64,
    pub ticks_since_released: u64,
}

/// The velocity a press records: the envelope divides by the velocity, so
/// zero counts as the softest nonzero strike.
pub open spec fn press_velocity(velocity: u8) -> u8 {
    if velocity == 0 {
        1
    } else {
        velocity
    }
}

/// A counter one tick later, held at its maximum rather than wrapping.
pub open spec fn tick_later(t: u64) -> u64 {
    if t < u64::MAX {
        (t + 1) as u64
    } else {
        t
    }
}

impl<G> KeyState<G> {
    /// A voice for `key` that has never sounded: both gains at `silence`,
    /// both clocks at zero.
    pub open spec fn fresh(key: u8, silence: G) -> KeyState<G> {
        KeyState {
            key,
            velocity: 1,
            last_volume: silence,
            start_volume: silence,
            is_released: false,
            ticks_since_pressed: 0,
            ticks_since_released: 0,
        }
    }

    /// The voice after a press: held, pressed clock restarted, new velocity,
    /// and the attack anchored at the latest gain.
    pub open spec fn pressed(self, velocity: u8) -> KeyState<G> {
        KeyState {
            velocity: press_velocity(velocity),
            start_volume: self.last_volume,
            is_released: false,
            ticks_since_pressed: 0,
            ..self
        }
    }

    /// The voice after a release: released, release clock restarted, and
    /// the release anchored at the latest gain.
    pub open spec fn released(self) -> KeyState<G> {
        KeyState {
            start_volume: self.last_volume,
            is_released: true,
            ticks_since_released: 0,
            ..self
        }
    }

    /// The voice one sample period later: the clock of its current phase
    /// (held or released) moves on by one tick.
    pub open spec fn ticked(self) -> KeyState<G> {
        if self.is_released {
            KeyState { ticks_since_released: tick_later(self.ticks_since_released), ..self }
        } else {
            KeyState { ticks_since_pressed: tick_later(self.ticks_since_pressed), ..self }
        }
    }

    /// The voice having been played at `gain`.
    pub open spec fn recorded(self, gain: G) -> KeyState<G> {
        KeyState { last_volume: gain, ..self }
    }

    /// The envelope stage this voice is in.
    pub open spec fn stage_in(self, envelope: EnvelopeTiming) -> Stage {
        envelope.stage_spec(self.ticks_since_pressed, self.is_released, self.ticks_since_released)
    }
}

impl<G: Copy> KeyState<G> {
    /// A voice for `key` that has never sounded.
    pub fn new(key: u8, silence: G) -> (r: KeyState<G>)
        ensures
            r == KeyState::fresh(key, silence),
    {
        KeyState {
            key,
            velocity: 1,
            last_volume: silence,
            start_volume: silence,
            is_released: false,
            ticks_since_pressed: 0,
            ticks_since_released: 0,
        }
    }

    /// Applies a press (`pressed`) or a release to this voice.
    pub fn apply(&mut self, pressed: bool, velocity: u8)
        ensures
            *final(self) == if pressed {
                old(self).pressed(velocity)
            } else {
                old(self).released()
            },
    {
        self.start_volume = self.last_volume;
        if pressed {
            self.velocity = if velocity == 0 {
                1
            } else {
                velocity
            };
            self.is_released = false;
            self.ticks_since_pressed = 0;
        } else {
            self.is_released = true;
            self.ticks_since_released = 0;
        }
    }

    /// Moves the clock of the voice's current phase on by one tick.
    pub fn advance(&mut self)
        ensures
            *final(self) == old(self).ticked(),
    {
        if self.is_released {
            if self.ticks_since_released < u64::MAX {
                self.ticks_since_released = self.ticks_since_released + 1;
            }
        } else {
            if self.ticks_since_pressed < u64::MAX {
                self.ticks_since_pressed = self.ticks_since_pressed + 1;
            }
        }
    }

    /// Records the gain the voice was played at.
    pub fn record(&mut self, gain: G)
        ensures
            *final(self) == old(self).recorded(gain),
    {
        self.last_volume = gain;
    }

    /// The envelope stage this voice is in.
    pub fn stage(&self, envelope: &EnvelopeTiming) -> (r: Stage)
        ensures
            r == self.stage_in(*envelope),
    {
        envelope.stage(self.ticks_since_pressed, self.is_released, self.ticks_since_released)
    }
}

} // verus!
