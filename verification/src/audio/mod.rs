//! Playback state shared by the engine, the queue and the integrations.

pub mod engine;
pub mod queue;

use vstd::prelude::*;

verus! {

/// Playback state reported to the UI.
#[derive(Debug, Clone, Copy, PartialEq, Eq, Structural)]
pub enum PlaybackState {
    /// Audio is currently playing.
    Playing,
    /// Playback paused in place.
    Paused,
    /// No track loaded.
    Stopped,
}

/// Repeat behaviour of the queue.
#[derive(Debug, Clone, Copy, PartialEq, Eq, Structural)]
pub enum RepeatMode {
    /// Play the queue once, then stop.
    Off,
    /// Restart the queue after the last track.
    All,
    /// Repeat the current track.
    One,
}

/// Opaque handle to the audio engine; the engine itself runs on its own
/// thread and is driven by commands.
pub struct Player;

} // verus!
