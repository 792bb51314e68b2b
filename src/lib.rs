//! Core of a small polyphonic wavetable synthesizer.
//!
//! The sample-domain arithmetic (envelope gains, interpolation, waveform
//! shaping) is done in floating point by the host, on the gain type `G`
//! that voices carry; this crate holds the parts of the engine whose
//! correctness is discrete: the per-key voice state machine, which voices
//! each sample plays and what it leaves behind, the envelope's stage
//! selection in sample ticks, wavetable validation, sampling and
//! wrap-around indexing, MIDI note parsing and the noise generator's state.
pub mod bridge;
pub mod envelope;
pub mod midi;
pub mod rand;
pub mod voice;
pub mod wavetable;
