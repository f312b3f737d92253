//! Protocol types between a caller, the playback engine, and the audio
//! device layer: transport commands, status events, and the audio
//! actions an unverified shell must apply to the output device.
//!
//! Volume is carried as an integer number of thousandths of full scale
//! (0 through 1000), so that clamping and persistence are exact.

use vstd::prelude::*;

verus! {

/// Full scale volume, in thousandths.
pub const VOLUME_FULL: u32 = 1000;

/// A transport command from the caller to the engine.
///
/// `SetVolume` carries thousandths of full scale and may be out of
/// range in either direction; the engine clamps it to `0..=VOLUME_FULL`.
#[derive(Debug, Clone)]
pub enum PlayerCommand {
    PlayFile(String),
    Pause,
    Resume,
    Stop,
    Seek(u64),
    SetVolume(i64),
    Shutdown,
}

/// A status event from the engine back to the caller.
#[derive(Debug, Clone)]
pub enum PlayerEvent {
    Started { path: String, duration_ms: Option<u64>, start_ms: u64 },
    Paused,
    Resumed,
    Stopped,
    Position { position_ms: u64 },
    TrackEnded,
    Error(String),
}

/// An effect the engine asks the audio device layer to perform.
///
/// `StartSession` means: stop any previous sink, build a fresh sink for
/// the source that was just opened, set its volume (thousandths), and
/// start it playing or paused as `play` says.
#[derive(Debug, Clone)]
pub enum AudioAction {
    Pause,
    Resume,
    SetVolume(u32),
    StopSink,
    StartSession { play: bool, volume: u32 },
}

/// A request to open a streaming source, handed out by the engine when a
/// `PlayFile` or `Seek` command needs outside work before it can finish.
#[derive(Debug, Clone)]
pub struct OpenRequest {
    pub path: String,
    pub start_ms: u64,
    /// Whether the new session starts playing (true) or paused (false).
    pub resume_playing: bool,
    /// Whether a `Position { position_ms: start_ms }` event follows the
    /// `Started` event once the open succeeds (set for seeks).
    pub announce_position: bool,
}

/// The volume actually stored for a requested value `v`.
pub open spec fn clamped_volume(v: i64) -> u32 {
    if v < 0 {
        0u32
    } else if v > VOLUME_FULL {
        VOLUME_FULL
    } else {
        v as u32
    }
}

/// Clamp a requested volume to `0..=VOLUME_FULL` thousandths.
pub fn clamp_volume(v: i64) -> (r: u32)
    ensures
        r == clamped_volume(v),
        r <= VOLUME_FULL,
{
    if v < 0 {
        0
    } else if v > 1000 {
        1000
    } else {
        v as u32
    }
}

} // verus!
