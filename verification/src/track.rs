//! The resolved download unit: one track of the remote catalog, reduced to the
//! plain values the engine reads.

use vstd::prelude::*;

verus! {

/// A resolved download unit.  Created by the catalog lookup, immutable once
/// created, and consumed exactly once by a worker.
#[derive(Debug, PartialEq)]
pub struct Track {
    /// The track's catalog identifier.
    pub id: u64,
    /// The track's title.
    pub title: String,
    /// The owning artist's name.
    pub artist: String,
    /// The containing album's title.
    pub album: String,
    /// Position within the album, 1-based, restarting per sub-volume.
    pub position: u64,
    /// The physical sub-volume (disc) the track belongs to.
    pub volume: u64,
    /// Whether the remote service permits fetching this track.
    pub readable: bool,
}

/// `t` with its position set to `p` and every other field unchanged.
pub open spec fn with_position(t: Track, p: u64) -> Track {
    Track { position: p, ..t }
}

impl Clone for Track {
    /// Cloning keeps every field.
    fn clone(&self) -> (r: Self)
        ensures
            r == *self,
    {
        Track {
            id: self.id,
            title: self.title.clone(),
            artist: self.artist.clone(),
            album: self.album.clone(),
            position: self.position,
            volume: self.volume,
            readable: self.readable,
        }
    }
}

} // verus!
