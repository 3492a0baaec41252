//! A theremin-style MIDI controller core.
//!
//! Relative motion from pointing devices is turned into MIDI pitches:
//! a pitch mapper clamps a one-dimensional position into a fixed range
//! and maps it to a note, a note emitter computes the minimal MIDI byte
//! messages for each pitch change, and a routine state machine tracks
//! per-device selection, dispatching commands and raw device events to
//! the right voice. All I/O (the device backend, the MIDI transport,
//! the channels to a presentation layer) stays outside this crate; the
//! library computes the messages to send and the state to publish.

pub mod events;
pub mod input;
pub mod midi;
pub mod routine;
