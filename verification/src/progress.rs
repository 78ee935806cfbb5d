//! Requests, progress events and per-item status: the vocabulary of the
//! download queue.

use vstd::prelude::*;
use vstd::string::*;
use crate::track::Track;

verus! {

/// A user intent: fetch one song, or fetch every track of one album.
/// Ephemeral — it exists only during dispatch and is never stored.
#[derive(Debug, Clone, Copy, PartialEq, Eq)]
pub enum DownloadRequest {
    Album(u64),
    Song(u64),
}

/// One event of the progress stream.  Events that concern a resolved track
/// carry the track itself; the two not-found reports carry only the requested
/// identifier, the sole cases in which no track could be resolved.
#[derive(Debug, PartialEq)]
pub enum DownloadProgress {
    Queue(Track),
    Start(Track),
    Finish(Track),
    DownloadError(Track),
    SongNotFoundError(u64),
    AlbumNotFoundError(u64),
}

impl Clone for DownloadProgress {
    /// Cloning keeps the variant and its payload.
    fn clone(&self) -> (r: Self)
        ensures
            r == *self,
    {
        match self {
            DownloadProgress::Queue(t) => DownloadProgress::Queue(t.clone()),
            DownloadProgress::Start(t) => DownloadProgress::Start(t.clone()),
            DownloadProgress::Finish(t) => DownloadProgress::Finish(t.clone()),
            DownloadProgress::DownloadError(t) => DownloadProgress::DownloadError(t.clone()),
            DownloadProgress::SongNotFoundError(id) => DownloadProgress::SongNotFoundError(*id),
            DownloadProgress::AlbumNotFoundError(id) => DownloadProgress::AlbumNotFoundError(*id),
        }
    }
}

/// The status of a queued item, as the consumer displays it.  Terminal
/// outcomes leave the active queue and live on only in the log.
#[derive(Debug, Clone, Copy, PartialEq, Eq, Structural)]
pub enum DownloadStatus {
    Downloading,
    Inactive,
}

impl DownloadStatus {
    /// The display name of the status.
    pub fn label(&self) -> (r: String)
        ensures
            *self == DownloadStatus::Downloading ==> r@ == "Downloading"@,
            *self == DownloadStatus::Inactive ==> r@ == "Inactive"@,
    {
        match self {
            DownloadStatus::Downloading => String::from_str("Downloading"),
            DownloadStatus::Inactive => String::from_str("Inactive"),
        }
    }
}

/// The identifier an event concerns.
pub open spec fn event_id(e: DownloadProgress) -> u64 {
    match e {
        DownloadProgress::Queue(t) => t.id,
        DownloadProgress::Start(t) => t.id,
        DownloadProgress::Finish(t) => t.id,
        DownloadProgress::DownloadError(t) => t.id,
        DownloadProgress::SongNotFoundError(id) => id,
        DownloadProgress::AlbumNotFoundError(id) => id,
    }
}

/// The track an event carries.  Meaningless for the two not-found reports,
/// which carry no track.
pub open spec fn track_of(e: DownloadProgress) -> Track
    recommends
        !is_not_found(e),
{
    match e {
        DownloadProgress::Queue(t) => t,
        DownloadProgress::Start(t) => t,
        DownloadProgress::Finish(t) => t,
        DownloadProgress::DownloadError(t) => t,
        DownloadProgress::SongNotFoundError(_) => arbitrary(),
        DownloadProgress::AlbumNotFoundError(_) => arbitrary(),
    }
}

/// A terminal event: the one success or failure report an item receives.
pub open spec fn is_terminal(e: DownloadProgress) -> bool {
    e is Finish || e is DownloadError
}

/// A not-found report, for a request that resolved to nothing.
pub open spec fn is_not_found(e: DownloadProgress) -> bool {
    e is SongNotFoundError || e is AlbumNotFoundError
}

/// The event a worker reports once the transfer of `t` has ended: success is
/// a finish, failure a download error — never anything else.
pub fn worker_report(t: Track, ok: bool) -> (r: DownloadProgress)
    ensures
        r == if ok {
            DownloadProgress::Finish(t)
        } else {
            DownloadProgress::DownloadError(t)
        },
{
    if ok {
        DownloadProgress::Finish(t)
    } else {
        DownloadProgress::DownloadError(t)
    }
}

} // verus!
