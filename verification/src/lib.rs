//! Note-tracking and just-intonation tuning engine for a MIDI lattice display.
//!
//! Pitch classes are held as an integer number of microcents within one
//! octave, so all comparisons and arithmetic are exact. A bounded voice
//! registry tracks the currently sounding notes, a snapshot channel hands
//! consistent copies of that state to a reader, and a tuning learner infers
//! generator intervals from the sounding pitch classes.

pub mod channel;
pub mod grid;
pub mod lattice;
pub mod learn;
pub mod matching;
pub mod midi;
pub mod tuning;
