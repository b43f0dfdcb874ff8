//! Earworm: the discrete logic of an audio synthesis library, verified.
//!
//! Pitch names and note parsing, step patterns and their sequencing,
//! polyphonic voice bookkeeping, ring buffers for delay lines, envelope
//! lifecycles and the bit arithmetic of pink noise.

pub mod text;
pub mod pitch;
pub mod note_macro;
pub mod pattern;
pub mod sequencer;
pub mod allocator;
pub mod ring;
pub mod envelope;
pub mod noise;
pub mod filter;
