//! Commands of clients, free of any provider.

use vstd::prelude::*;

use crate::media::{Device, MediaItem, Playback, Queue, RepeatMode};

verus! {

/// Where playback starts: inside a context, within a list of tracks, at a
/// position.
#[derive(Clone, Debug, Default)]
pub struct PlayContext {
    pub context_uri: Option<String>,
    pub tracks: Option<Vec<String>>,
    pub position_ms: u64,
}

/// What a client asks for.
#[derive(Clone, Debug)]
pub enum CommandKind {
    Pause,
    Resume,
    TogglePlayback,
    PlayItem { item: MediaItem },
    PlayUri { uri: String, context: Option<PlayContext> },
    Next,
    Previous,
    Seek { position_ms: u64 },
    Volume { volume_percent: u8 },
    Shuffle { state: bool },
    Repeat { state: RepeatMode },
    QueueItem { item: MediaItem },
    QueueUri { uri: String },
    Transfer { device: Device, play: bool },
    AddToPlaylist { item: MediaItem, playlist_id: String, playlist_name: String },
    SaveItem { item: MediaItem },
    SaveCurrent,
}

/// What a command came back with.
#[derive(Clone, Debug, Default)]
pub struct CommandResult {
    pub message: Option<String>,
    pub playback: Option<Playback>,
    pub queue: Option<Queue>,
    pub devices: Option<Vec<Device>>,
    pub request_refresh: bool,
}

} // verus!
