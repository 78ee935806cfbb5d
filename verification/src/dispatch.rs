//! Request dispatch: what a song request becomes once the catalog has
//! answered, and how an album fan-out numbers its members.

use vstd::prelude::*;
use crate::progress::DownloadProgress;
use crate::track::{with_position, Track};

verus! {

/// The 1-based position of member `i` of an album: it counts up from the
/// previous member when both lie on the same sub-volume, and restarts at 1 on
/// every sub-volume boundary — a multi-disc album must not carry a
/// monotonically increasing number across disc boundaries.
pub open spec fn spec_position(ts: Seq<Track>, i: int) -> int
    recommends
        0 <= i < ts.len(),
    decreases i,
{
    if i <= 0 {
        1
    } else if ts[i].volume == ts[i - 1].volume {
        spec_position(ts, i - 1) + 1
    } else {
        1
    }
}

/// Every position is at least 1 and at most one more than its index.
pub proof fn lemma_position_bounds(ts: Seq<Track>, i: int)
    requires
        0 <= i < ts.len(),
    ensures
        1 <= spec_position(ts, i) <= i + 1,
    decreases i,
{
    if i > 0 && ts[i].volume == ts[i - 1].volume {
        lemma_position_bounds(ts, i - 1);
    }
}

/// The members of an album with their per-sub-volume positions written in.
pub open spec fn positioned(ts: Seq<Track>) -> Seq<Track> {
    Seq::new(ts.len(), |i: int| with_position(ts[i], spec_position(ts, i) as u64))
}

/// The queue announcements for a run of tracks, in order.
pub open spec fn queue_events(ts: Seq<Track>) -> Seq<DownloadProgress> {
    Seq::new(ts.len(), |i: int| DownloadProgress::Queue(ts[i]))
}

/// Number the members of an album: positions restart at 1 on every
/// sub-volume boundary and count up within a sub-volume.  Every other field
/// is kept.  Positions are assigned before any member is dispatched, so an
/// unordered concurrent fan-out cannot disturb them.
pub fn assign_positions(tracks: Vec<Track>) -> (r: Vec<Track>)
    ensures
        r@ == positioned(tracks@),
{
    let ghost ts = tracks@;
    let mut r: Vec<Track> = Vec::new();
    let mut pos: u64 = 0;
    let mut i: usize = 0;
    while i < tracks.len()
        invariant
            ts == tracks@,
            i <= ts.len(),
            r@ == positioned(ts).take(i as int),
            i > 0 ==> pos == spec_position(ts, i - 1),
            i == 0 ==> pos == 0,
            pos <= i,
        decreases ts.len() - i,
    {
        if i > 0 && tracks[i].volume == tracks[i - 1].volume {
            pos = pos + 1;
        } else {
            pos = 1;
        }
        proof {
            assert(pos == spec_position(ts, i as int));
        }
        let mut t = tracks[i].clone();
        t.position = pos;
        proof {
            assert(t == with_position(ts[i as int], spec_position(ts, i as int) as u64));
            assert(r@.push(t) =~= positioned(ts).take(i + 1));
        }
        r.push(t);
        i = i + 1;
    }
    proof {
        assert(positioned(ts).take(ts.len() as int) =~= positioned(ts));
    }
    r
}

/// Decide a song request from what the resolver answered: a readable track is
/// announced as queued and becomes the one job to run; a missing or
/// unreadable track yields exactly one not-found report and no job.
pub fn song_events(id: u64, resolved: Option<Track>) -> (r: (Vec<DownloadProgress>, Vec<Track>))
    ensures
        resolved matches Some(t) ==> (if t.readable {
            r.0@.len() == 1 && r.0@[0] == DownloadProgress::Queue(t) && r.1@.len() == 1
                && r.1@[0] == t
        } else {
            r.0@.len() == 1 && r.0@[0] == DownloadProgress::SongNotFoundError(id) && r.1@.len()
                == 0
        }),
        resolved is None ==> r.0@.len() == 1 && r.0@[0] == DownloadProgress::SongNotFoundError(id)
            && r.1@.len() == 0,
{
    match resolved {
        Some(t) => {
            if t.readable {
                let job = t.clone();
                let mut events: Vec<DownloadProgress> = Vec::new();
                let mut jobs: Vec<Track> = Vec::new();
                events.push(DownloadProgress::Queue(t));
                jobs.push(job);
                proof {
                    assert(events@ =~= seq![DownloadProgress::Queue(jobs@[0])]);
                    assert(jobs@ =~= seq![jobs@[0]]);
                }
                (events, jobs)
            } else {
                let mut events: Vec<DownloadProgress> = Vec::new();
                events.push(DownloadProgress::SongNotFoundError(id));
                proof {
                    assert(events@ =~= seq![DownloadProgress::SongNotFoundError(id)]);
                }
                (events, Vec::new())
            }
        },
        None => {
            let mut events: Vec<DownloadProgress> = Vec::new();
            events.push(DownloadProgress::SongNotFoundError(id));
            proof {
                assert(events@ =~= seq![DownloadProgress::SongNotFoundError(id)]);
            }
            (events, Vec::new())
        },
    }
}

} // verus!
