//! The playback queue engine of a per-guild music bot: the ordered
//! track store with its two playback slots (current and pre-fetched
//! next), the track-ended continuation protocol, the idle-timeout
//! monitor, and the decision logic of the surrounding commands. Every
//! operation is a small verified state transition; the chat gateway,
//! the voice driver and the lookups around them live outside and act
//! only on the effects these transitions hand back.

pub mod checks;
pub mod commands;
pub mod data;
pub mod db;
pub mod lyrics_api;
pub mod playlists;
pub mod queue;
pub mod util;
pub mod voice_events;
pub mod yt_playlist_stream;
