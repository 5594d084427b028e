//! Note-driven capture and reverse-loop playback of a stereo signal, with the
//! envelope shaping that masks the loop seam.
//!
//! Samples are opaque to this crate: every type and function is generic over
//! the sample type, and the two arithmetic steps the envelope needs are handed
//! in by the caller as functions.
//!
//! - [`engine`]: the engine's state, and what a block and an event do to it.
//! - [`cursor`]: the arithmetic of the write and read cursors.
//! - [`shaper`]: the attack and release envelopes.
//! - [`midi`]: the note events, read from MIDI bytes.
//! - [`tag`]: the kinds of timing tag.
//! - [`laws`]: what holds over whole runs of blocks.

pub mod cursor;
pub mod engine;
pub mod laws;
pub mod midi;
pub mod shaper;
pub mod tag;
