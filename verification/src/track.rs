//! What the player reports on each poll: its state, the position of
//! playback and the track that is loaded.
//!
//! Positions and durations are milliseconds.

use vstd::prelude::*;

verus! {

/// What the player is doing.
#[derive(Clone, Copy, Debug, PartialEq, Eq, Structural)]
pub enum PlayerState {
    Stopped,
    Paused,
    Playing,
    FastForwarding,
    Rewinding,
}

/// The album that a track belongs to.
#[derive(Debug)]
pub struct Album {
    pub name: Option<String>,
    pub artist: Option<String>,
}

/// A track of the library. Two reports speak of the same track exactly when
/// their persistent ids are equal; nothing else is compared.
#[derive(Debug)]
pub struct Track {
    pub persistent_id: String,
    pub name: String,
    pub artist: Option<String>,
    pub album: Album,
    /// The length of the track.
    pub duration: Option<u64>,
    pub track_number: Option<u32>,
    /// Where playback of the track begins when nothing was skipped.
    pub start: u64,
}

/// A copy of a string that may be missing.
pub fn clone_text(text: &Option<String>) -> (copy: Option<String>)
    ensures
        copy == *text,
{
    match text {
        Some(s) => Some(s.clone()),
        None => None,
    }
}

impl Clone for Album {
    fn clone(&self) -> (copy: Self)
        ensures
            copy == *self,
    {
        Album { name: clone_text(&self.name), artist: clone_text(&self.artist) }
    }
}

impl Clone for Track {
    fn clone(&self) -> (copy: Self)
        ensures
            copy == *self,
    {
        Track {
            persistent_id: self.persistent_id.clone(),
            name: self.name.clone(),
            artist: clone_text(&self.artist),
            album: self.album.clone(),
            duration: self.duration,
            track_number: self.track_number,
            start: self.start,
        }
    }
}

impl Track {
    /// Whether `self` and `other` are the same track of the library.
    pub open spec fn same_as(self, other: Track) -> bool {
        self.persistent_id@ == other.persistent_id@
    }

    /// Compares the persistent ids.
    pub fn is_same_as(&self, other: &Track) -> (same: bool)
        ensures
            same == self.same_as(*other),
    {
        self.persistent_id == other.persistent_id
    }
}

/// One reading of the player.
#[derive(Debug)]
pub struct PlayerSnapshot {
    pub state: PlayerState,
    /// How far into the track playback is, where the player says so.
    pub position: Option<u64>,
    /// The loaded track, where there is one.
    pub track: Option<Track>,
}

/// Why a poll brought no snapshot.
#[derive(Clone, Copy, Debug, PartialEq, Eq, Structural)]
pub enum PollError {
    NoData,
    NotPlaying,
    DeserializationFailed,
    AppCommandFailed,
}

/// What one poll of the player brought.
#[derive(Debug)]
pub enum Poll {
    Sample(PlayerSnapshot),
    Failed(PollError),
}

} // verus!
