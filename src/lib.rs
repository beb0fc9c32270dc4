//! Playback decisions and waveform reduction for a single-track audio engine.
//!
//! `player` tracks the state of one playback session (what is loaded, whether
//! the sink is paused, and the anchor from which the position is derived);
//! `waveform` reduces decoded samples to a fixed number of energy buckets.

pub mod error;
pub mod player;
pub mod waveform;
