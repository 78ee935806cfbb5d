//! The consumer-side status projection: the active download queue and the
//! log, derived solely by folding the progress stream, one event at a time.

use vstd::prelude::*;
use crate::log::{get_log_from_progress, log_matches, LogEntry};
use crate::progress::{is_not_found, is_terminal, track_of, DownloadProgress, DownloadStatus};
use crate::track::Track;

verus! {

/// One entry of the active queue: a track and the status the consumer shows
/// for it.
#[derive(Debug, PartialEq)]
pub struct QueueItem {
    /// The queued track.
    pub song: Track,
    /// Its displayed status.
    pub status: DownloadStatus,
}

impl Clone for QueueItem {
    /// Cloning keeps the track and the status.
    fn clone(&self) -> (r: Self)
        ensures
            r == *self,
    {
        QueueItem { song: self.song.clone(), status: self.status }
    }
}

/// Some entry of `q` concerns identifier `id`.
pub open spec fn has_match(q: Seq<QueueItem>, id: u64) -> bool {
    exists|i: int| 0 <= i < q.len() && q[i].song.id == id
}

/// The index of the first entry of `q` concerning identifier `id`.
pub open spec fn first_match(q: Seq<QueueItem>, id: u64) -> int
    recommends
        has_match(q, id),
    decreases q.len(),
{
    if q.len() == 0 {
        0
    } else if q[0].song.id == id {
        0
    } else {
        1 + first_match(q.drop_first(), id)
    }
}

proof fn lemma_first_match_is(q: Seq<QueueItem>, id: u64, i: int)
    requires
        0 <= i < q.len(),
        q[i].song.id == id,
        forall|j: int| 0 <= j < i ==> q[j].song.id != id,
    ensures
        first_match(q, id) == i,
    decreases i,
{
    if i > 0 {
        assert(q.drop_first()[i - 1] == q[i]);
        assert forall|j: int| 0 <= j < i - 1 implies q.drop_first()[j].song.id != id by {
            assert(q.drop_first()[j] == q[j + 1]);
        }
        lemma_first_match_is(q.drop_first(), id, i - 1);
    }
}

/// The consumer's display state: the active queue and the finished/error
/// log.  It is never mutated except by folding progress events.
pub struct StatusProjection {
    /// Tracks queued or downloading, oldest first.  A terminal event removes
    /// its track from here.
    pub queue: Vec<QueueItem>,
    /// One line per terminal outcome or not-found report, oldest first.
    pub logs: Vec<LogEntry>,
}

impl StatusProjection {
    /// An empty projection: nothing queued, nothing logged.
    pub fn new() -> (r: StatusProjection)
        ensures
            r.queue@.len() == 0,
            r.logs@.len() == 0,
    {
        StatusProjection { queue: Vec::new(), logs: Vec::new() }
    }

    /// Fold one progress event into the display state, by the transition
    /// table: a queued track enters the queue as inactive; a start marks
    /// every entry with its identifier as downloading; a terminal event
    /// removes the first entry with its identifier and appends a log line; a
    /// not-found report only appends a log line.  An event whose identifier
    /// a terminal event cannot find would mark a defect in the producer, and
    /// is ruled out here rather than handled.
    pub fn apply(&mut self, progress: DownloadProgress)
        requires
            is_terminal(progress) ==> has_match(old(self).queue@, track_of(progress).id),
        ensures
            progress is Queue || progress is Start ==> final(self).logs@ == old(self).logs@,
            !(progress is Queue || progress is Start) ==> final(self).logs@.len() == old(
                self,
            ).logs@.len() + 1 && final(self).logs@.drop_last() == old(self).logs@ && log_matches(
                final(self).logs@.last(),
                progress,
            ),
            progress is Queue ==> final(self).queue@ == old(self).queue@.push(
                (QueueItem { song: track_of(progress), status: DownloadStatus::Inactive }),
            ),
            progress is Start ==> final(self).queue@.len() == old(self).queue@.len() && forall|
                i: int,
            |
                0 <= i < old(self).queue@.len() ==> #[trigger] final(self).queue@[i] == (if old(
                    self,
                ).queue@[i].song.id == track_of(progress).id {
                    (QueueItem {
                        song: old(self).queue@[i].song,
                        status: DownloadStatus::Downloading,
                    })
                } else {
                    old(self).queue@[i]
                }),
            is_terminal(progress) ==> final(self).queue@ == old(self).queue@.remove(
                first_match(old(self).queue@, track_of(progress).id),
            ),
            is_not_found(progress) ==> final(self).queue@ == old(self).queue@,
    {
        let log = get_log_from_progress(&progress);
        match log {
            Some(entry) => {
                self.logs.push(entry);
                proof {
                    assert(self.logs@.drop_last() =~= old(self).logs@);
                }
            },
            None => {},
        }
        match progress {
            DownloadProgress::Queue(t) => {
                self.queue.push(QueueItem { song: t, status: DownloadStatus::Inactive });
            },
            DownloadProgress::Start(t) => {
                let ghost q0 = self.queue@;
                let ghost l0 = self.logs@;
                let n = self.queue.len();
                let mut i: usize = 0;
                while i < n
                    invariant
                        self.logs@ == l0,
                        n == self.queue@.len(),
                        q0.len() == n,
                        i <= n,
                        forall|j: int|
                            0 <= j < i ==> #[trigger] self.queue@[j] == (if q0[j].song.id
                                == t.id {
                                (QueueItem {
                                    song: q0[j].song,
                                    status: DownloadStatus::Downloading,
                                })
                            } else {
                                q0[j]
                            }),
                        forall|j: int| i <= j < n ==> #[trigger] self.queue@[j] == q0[j],
                    decreases n - i,
                {
                    if self.queue[i].song.id == t.id {
                        let song = self.queue[i].song.clone();
                        self.queue[i] = QueueItem { song, status: DownloadStatus::Downloading };
                    }
                    i = i + 1;
                }
            },
            DownloadProgress::Finish(t) | DownloadProgress::DownloadError(t) => {
                let ghost q0 = self.queue@;
                let ghost l0 = self.logs@;
                let n = self.queue.len();
                let mut i: usize = 0;
                while self.queue[i].song.id != t.id
                    invariant
                        self.logs@ == l0,
                        self.queue@ == q0,
                        has_match(q0, t.id),
                        i < q0.len(),
                        q0.len() == n,
                        forall|j: int| 0 <= j < i ==> q0[j].song.id != t.id,
                    decreases q0.len() - i,
                {
                    i = i + 1;
                    proof {
                        let k = choose|k: int| 0 <= k < q0.len() && q0[k].song.id == t.id;
                        assert(i <= k);
                    }
                }
                proof {
                    lemma_first_match_is(q0, t.id, i as int);
                }
                self.queue.remove(i);
            },
            DownloadProgress::SongNotFoundError(_) => {},
            DownloadProgress::AlbumNotFoundError(_) => {},
        }
    }
}

} // verus!
