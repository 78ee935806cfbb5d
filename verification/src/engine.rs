//! The download engine, serialized: an ordered job queue, a fixed pool of
//! worker slots, and the full progress-event history.  The transitions are
//! exactly the decisions of the live system — dispatching a request once the
//! catalog has answered, a free worker taking the oldest job, a worker
//! reporting its outcome — and the invariant ties the state to the history,
//! so that every reachable history obeys the per-item lifecycle order and the
//! worker-count bound.

use vstd::prelude::*;
use crate::dispatch::{positioned, queue_events};
use crate::progress::{event_id, is_not_found, is_terminal, track_of, DownloadProgress};
use crate::track::Track;

verus! {

/// The events of `h` that concern identifier `id`, oldest first.
pub open spec fn events_for(h: Seq<DownloadProgress>, id: u64) -> Seq<DownloadProgress>
    decreases h.len(),
{
    if h.len() == 0 {
        Seq::<DownloadProgress>::empty()
    } else {
        let rest = events_for(h.drop_last(), id);
        if event_id(h.last()) == id {
            rest.push(h.last())
        } else {
            rest
        }
    }
}

/// How many start announcements `h` holds.
pub open spec fn count_start(h: Seq<DownloadProgress>) -> int
    decreases h.len(),
{
    if h.len() == 0 {
        0
    } else {
        count_start(h.drop_last()) + if h.last() is Start {
            1int
        } else {
            0int
        }
    }
}

/// How many terminal events (finish or download error) `h` holds.
pub open spec fn count_terminal(h: Seq<DownloadProgress>) -> int
    decreases h.len(),
{
    if h.len() == 0 {
        0
    } else {
        count_terminal(h.drop_last()) + if is_terminal(h.last()) {
            1int
        } else {
            0int
        }
    }
}

/// How many items have been started but not yet driven to a terminal event.
pub open spec fn inflight(h: Seq<DownloadProgress>) -> int {
    count_start(h) - count_terminal(h)
}

/// How many worker slots are busy.
pub open spec fn busy_count(ws: Seq<Option<Track>>) -> int
    decreases ws.len(),
{
    if ws.len() == 0 {
        0
    } else {
        busy_count(ws.drop_last()) + if ws.last() is Some {
            1int
        } else {
            0int
        }
    }
}

/// No event concerning `id` has been emitted yet.
pub open spec fn fresh_id(h: Seq<DownloadProgress>, id: u64) -> bool {
    events_for(h, id).len() == 0
}

/// `t` has been announced as queued, and nothing more has happened to it.
pub open spec fn queued_only(h: Seq<DownloadProgress>, t: Track) -> bool {
    events_for(h, t.id) == seq![DownloadProgress::Queue(t)]
}

/// `t` has been queued and started, and has not yet reached a terminal event.
pub open spec fn started_only(h: Seq<DownloadProgress>, t: Track) -> bool {
    events_for(h, t.id) == seq![DownloadProgress::Queue(t), DownloadProgress::Start(t)]
}

/// The per-identifier lifecycle: the events concerning `id`, in stream order,
/// are a prefix of queued → started → one terminal event, all carrying the
/// same track — or a single not-found report, after which nothing follows.
pub open spec fn lifecycle_ok(h: Seq<DownloadProgress>, id: u64) -> bool {
    let e = events_for(h, id);
    ||| e.len() == 0
    ||| (e.len() == 1 && is_not_found(e[0]))
    ||| (e.len() == 1 && e[0] is Queue)
    ||| (e.len() == 2 && e[0] is Queue && e[1] is Start && track_of(e[1]) == track_of(e[0]))
    ||| (e.len() == 3 && e[0] is Queue && e[1] is Start && is_terminal(e[2]) && track_of(e[1])
        == track_of(e[0]) && track_of(e[2]) == track_of(e[0]))
}

proof fn lemma_events_for_push(h: Seq<DownloadProgress>, e: DownloadProgress, id: u64)
    ensures
        event_id(e) == id ==> events_for(h.push(e), id) == events_for(h, id).push(e),
        event_id(e) != id ==> events_for(h.push(e), id) == events_for(h, id),
{
    assert(h.push(e).drop_last() =~= h);
    assert(h.push(e).last() == e);
}

proof fn lemma_events_for_push_all(h: Seq<DownloadProgress>, e: DownloadProgress)
    ensures
        forall|id: u64|
            #[trigger] events_for(h.push(e), id) == if event_id(e) == id {
                events_for(h, id).push(e)
            } else {
                events_for(h, id)
            },
{
    assert forall|id: u64|
        #[trigger] events_for(h.push(e), id) == if event_id(e) == id {
            events_for(h, id).push(e)
        } else {
            events_for(h, id)
        } by {
        lemma_events_for_push(h, e, id);
    }
}

proof fn lemma_counts_push(h: Seq<DownloadProgress>, e: DownloadProgress)
    ensures
        count_start(h.push(e)) == count_start(h) + if e is Start {
            1int
        } else {
            0int
        },
        count_terminal(h.push(e)) == count_terminal(h) + if is_terminal(e) {
            1int
        } else {
            0int
        },
{
    assert(h.push(e).drop_last() =~= h);
    assert(h.push(e).last() == e);
}

proof fn lemma_busy_count_update(ws: Seq<Option<Track>>, w: int, x: Option<Track>)
    requires
        0 <= w < ws.len(),
    ensures
        busy_count(ws.update(w, x)) == busy_count(ws) - (if ws[w] is Some {
            1int
        } else {
            0int
        }) + (if x is Some {
            1int
        } else {
            0int
        }),
    decreases ws.len(),
{
    if w == ws.len() - 1 {
        assert(ws.update(w, x).drop_last() =~= ws.drop_last());
        assert(ws.update(w, x).last() == x);
    } else {
        lemma_busy_count_update(ws.drop_last(), w, x);
        assert(ws.update(w, x).drop_last() =~= ws.drop_last().update(w, x));
        assert(ws.update(w, x).last() == ws.last());
    }
}

proof fn lemma_busy_count_bounds(ws: Seq<Option<Track>>)
    ensures
        0 <= busy_count(ws) <= ws.len(),
    decreases ws.len(),
{
    if ws.len() > 0 {
        lemma_busy_count_bounds(ws.drop_last());
    }
}

proof fn lemma_wf_after_not_found(pre: Engine, post: Engine, ev: DownloadProgress)
    requires
        pre.wf(),
        is_not_found(ev),
        fresh_id(pre.history@, event_id(ev)),
        post.history@ == pre.history@.push(ev),
        post.queue == pre.queue,
        post.workers == pre.workers,
    ensures
        post.wf(),
{
    let id = event_id(ev);
    lemma_events_for_push_all(pre.history@, ev);
    lemma_counts_push(pre.history@, ev);
    assert(events_for(pre.history@, id).push(ev) =~= seq![ev]);
    assert forall|x: u64| lifecycle_ok(post.history@, x) by {
        if x == id {
            assert(events_for(post.history@, x) =~= seq![ev]);
        } else {
            assert(events_for(post.history@, x) == events_for(pre.history@, x));
            assert(lifecycle_ok(pre.history@, x));
        }
    }
    assert forall|i: int| 0 <= i < post.queue@.len() implies queued_only(
        post.history@,
        #[trigger] post.queue@[i],
    ) by {
        if post.queue@[i].id == id {
            assert(events_for(pre.history@, id).len() == 0);
            assert(false);
        }
    }
    assert forall|w: int|
        0 <= w < post.workers@.len() implies (#[trigger] post.workers@[w] matches Some(t)
        ==> started_only(post.history@, t)) by {
        match post.workers@[w] {
            Some(t) => {
                if t.id == id {
                    assert(started_only(pre.history@, t));
                    assert(false);
                }
            },
            None => {},
        }
    }
}

proof fn lemma_wf_after_queue(pre: Engine, post: Engine, t: Track)
    requires
        pre.wf(),
        fresh_id(pre.history@, t.id),
        post.history@ == pre.history@.push(DownloadProgress::Queue(t)),
        post.queue@ == pre.queue@.push(t),
        post.workers == pre.workers,
    ensures
        post.wf(),
{
    let ev = DownloadProgress::Queue(t);
    lemma_events_for_push_all(pre.history@, ev);
    lemma_counts_push(pre.history@, ev);
    assert(events_for(pre.history@, t.id).push(ev) =~= seq![ev]);
    assert forall|x: u64| lifecycle_ok(post.history@, x) by {
        if x == t.id {
            assert(events_for(post.history@, x) =~= seq![ev]);
        } else {
            assert(events_for(post.history@, x) == events_for(pre.history@, x));
            assert(lifecycle_ok(pre.history@, x));
        }
    }
    assert forall|i: int| 0 <= i < pre.queue@.len() implies pre.queue@[i].id != t.id by {
        if pre.queue@[i].id == t.id {
            assert(queued_only(pre.history@, pre.queue@[i]));
            assert(false);
        }
    }
    assert forall|i: int| 0 <= i < post.queue@.len() implies queued_only(
        post.history@,
        #[trigger] post.queue@[i],
    ) by {
        if i < pre.queue@.len() {
            assert(post.queue@[i] == pre.queue@[i]);
        } else {
            assert(post.queue@[i] == t);
        }
    }
    assert forall|w: int|
        0 <= w < post.workers@.len() implies (#[trigger] post.workers@[w] matches Some(u)
        ==> started_only(post.history@, u)) by {
        match post.workers@[w] {
            Some(u) => {
                if u.id == t.id {
                    assert(started_only(pre.history@, u));
                    assert(false);
                }
            },
            None => {},
        }
    }
    assert forall|i: int, w: int|
        #![trigger post.queue@[i], post.workers@[w]]
        (0 <= i < post.queue@.len() && 0 <= w < post.workers@.len()) implies (post.workers@[w]
        matches Some(u) ==> post.queue@[i].id != u.id) by {
        match post.workers@[w] {
            Some(u) => {
                if u.id == t.id {
                    assert(started_only(pre.history@, u));
                    assert(false);
                }
            },
            None => {},
        }
    }
}

proof fn lemma_wf_after_start(pre: Engine, post: Engine, w: int)
    requires
        pre.wf(),
        0 <= w < pre.workers@.len(),
        pre.workers@[w] is None,
        pre.queue@.len() > 0,
        post.history@ == pre.history@.push(DownloadProgress::Start(pre.queue@[0])),
        post.queue@ == pre.queue@.drop_first(),
        post.workers@ == pre.workers@.update(w, Some(pre.queue@[0])),
    ensures
        post.wf(),
{
    let t = pre.queue@[0];
    let ev = DownloadProgress::Start(t);
    lemma_events_for_push_all(pre.history@, ev);
    lemma_counts_push(pre.history@, ev);
    lemma_busy_count_update(pre.workers@, w, Some(t));
    assert(queued_only(pre.history@, t));
    assert(events_for(pre.history@, t.id).push(ev) =~= seq![DownloadProgress::Queue(t), ev]);
    assert(started_only(post.history@, t));
    assert forall|x: u64| lifecycle_ok(post.history@, x) by {
        if x == t.id {
            assert(events_for(post.history@, x) =~= seq![DownloadProgress::Queue(t), ev]);
        } else {
            assert(events_for(post.history@, x) == events_for(pre.history@, x));
            assert(lifecycle_ok(pre.history@, x));
        }
    }
    assert forall|i: int| 0 <= i < post.queue@.len() implies queued_only(
        post.history@,
        #[trigger] post.queue@[i],
    ) by {
        assert(post.queue@[i] == pre.queue@[i + 1]);
        assert(pre.queue@[i + 1].id != t.id);
    }
    assert forall|v: int|
        0 <= v < post.workers@.len() implies (#[trigger] post.workers@[v] matches Some(u)
        ==> started_only(post.history@, u)) by {
        if v != w {
            match post.workers@[v] {
                Some(u) => {
                    assert(pre.workers@[v] == post.workers@[v]);
                    assert(u.id != t.id);
                },
                None => {},
            }
        }
    }
    assert forall|i: int, v: int|
        #![trigger post.queue@[i], post.workers@[v]]
        (0 <= i < post.queue@.len() && 0 <= v < post.workers@.len()) implies (post.workers@[v]
        matches Some(u) ==> post.queue@[i].id != u.id) by {
        assert(post.queue@[i] == pre.queue@[i + 1]);
        match post.workers@[v] {
            Some(u) => {
                if v == w {
                    assert(pre.queue@[i + 1].id != t.id);
                } else {
                    assert(pre.workers@[v] == post.workers@[v]);
                }
            },
            None => {},
        }
    }
    assert forall|v: int, x: int|
        #![trigger post.workers@[v], post.workers@[x]]
        0 <= v < x < post.workers@.len() implies (post.workers@[v] matches Some(u) ==> (
    post.workers@[x] matches Some(y) ==> u.id != y.id)) by {
        if v != w && x != w {
            assert(pre.workers@[v] == post.workers@[v]);
            assert(pre.workers@[x] == post.workers@[x]);
        }
    }
}

proof fn lemma_wf_after_terminal(pre: Engine, post: Engine, w: int, t: Track, ev: DownloadProgress)
    requires
        pre.wf(),
        0 <= w < pre.workers@.len(),
        pre.workers@[w] == Some(t),
        ev == DownloadProgress::Finish(t) || ev == DownloadProgress::DownloadError(t),
        post.history@ == pre.history@.push(ev),
        post.queue == pre.queue,
        post.workers@ == pre.workers@.update(w, None::<Track>),
    ensures
        post.wf(),
{
    lemma_events_for_push_all(pre.history@, ev);
    lemma_counts_push(pre.history@, ev);
    lemma_busy_count_update(pre.workers@, w, None::<Track>);
    assert(started_only(pre.history@, t));
    assert(events_for(pre.history@, t.id).push(ev) =~= seq![
        DownloadProgress::Queue(t),
        DownloadProgress::Start(t),
        ev,
    ]);
    assert forall|x: u64| lifecycle_ok(post.history@, x) by {
        if x == t.id {
            assert(events_for(post.history@, x) =~= seq![
                DownloadProgress::Queue(t),
                DownloadProgress::Start(t),
                ev,
            ]);
        } else {
            assert(events_for(post.history@, x) == events_for(pre.history@, x));
            assert(lifecycle_ok(pre.history@, x));
        }
    }
    assert forall|i: int| 0 <= i < post.queue@.len() implies queued_only(
        post.history@,
        #[trigger] post.queue@[i],
    ) by {
        assert(pre.queue@[i].id != t.id);
    }
    assert forall|v: int|
        0 <= v < post.workers@.len() implies (#[trigger] post.workers@[v] matches Some(u)
        ==> started_only(post.history@, u)) by {
        match post.workers@[v] {
            Some(u) => {
                assert(v != w);
                assert(pre.workers@[v] == post.workers@[v]);
                assert(u.id != t.id);
            },
            None => {},
        }
    }
}

/// The downloader core: jobs waiting for a worker, one slot per worker, and
/// every progress event emitted so far.
pub struct Engine {
    /// Jobs admitted to the queue and not yet taken, oldest first.
    pub queue: Vec<Track>,
    /// One slot per worker: the job it is driving, if it is busy.
    pub workers: Vec<Option<Track>>,
    /// The progress stream so far, oldest event first.
    pub history: Vec<DownloadProgress>,
}

impl Engine {
    /// The engine invariant: every identifier's events obey the lifecycle
    /// order; a queued job has been announced exactly once; a busy worker's
    /// job has been queued and started; no identifier sits in two places at
    /// once; and the number of started-but-unfinished items equals the number
    /// of busy workers.
    pub open spec fn wf(self) -> bool {
        &&& forall|id: u64| lifecycle_ok(self.history@, id)
        &&& forall|i: int|
            0 <= i < self.queue@.len() ==> queued_only(self.history@, #[trigger] self.queue@[i])
        &&& forall|i: int, j: int|
            #![trigger self.queue@[i], self.queue@[j]]
            0 <= i < j < self.queue@.len() ==> self.queue@[i].id != self.queue@[j].id
        &&& forall|w: int|
            0 <= w < self.workers@.len() ==> (#[trigger] self.workers@[w] matches Some(t)
                ==> started_only(self.history@, t))
        &&& forall|w: int, v: int|
            #![trigger self.workers@[w], self.workers@[v]]
            0 <= w < v < self.workers@.len() ==> (self.workers@[w] matches Some(t) ==> (
            self.workers@[v] matches Some(u) ==> t.id != u.id))
        &&& forall|i: int, w: int|
            #![trigger self.queue@[i], self.workers@[w]]
            (0 <= i < self.queue@.len() && 0 <= w < self.workers@.len()) ==> (self.workers@[w]
                matches Some(t) ==> self.queue@[i].id != t.id)
        &&& inflight(self.history@) == busy_count(self.workers@)
    }

    /// A fresh engine: the requested number of idle workers, an empty queue,
    /// an empty history.
    pub fn new(worker_count: usize) -> (r: Engine)
        ensures
            r.wf(),
            r.workers@.len() == worker_count,
            forall|w: int| 0 <= w < worker_count ==> #[trigger] r.workers@[w] is None,
            r.queue@.len() == 0,
            r.history@.len() == 0,
    {
        let mut workers: Vec<Option<Track>> = Vec::new();
        let mut w: usize = 0;
        while w < worker_count
            invariant
                w <= worker_count,
                workers@.len() == w,
                forall|v: int| 0 <= v < w ==> #[trigger] workers@[v] is None,
                busy_count(workers@) == 0,
            decreases worker_count - w,
        {
            proof {
                assert(workers@.push(None::<Track>).drop_last() =~= workers@);
            }
            workers.push(None);
            w = w + 1;
        }
        Engine { queue: Vec::new(), workers, history: Vec::new() }
    }

    /// Decide a song request once the catalog has answered.  A readable track
    /// is announced as queued and admitted to the job queue; a missing or
    /// unreadable one yields exactly one not-found report and no job, so no
    /// queue, start or terminal event for that identifier ever follows from
    /// this request.
    pub fn dispatch_song(&mut self, id: u64, resolved: Option<Track>)
        requires
            old(self).wf(),
            fresh_id(old(self).history@, id),
            resolved matches Some(t) ==> t.id == id,
        ensures
            final(self).wf(),
            final(self).workers == old(self).workers,
            resolved matches Some(t) ==> (if t.readable {
                final(self).history@ == old(self).history@.push(DownloadProgress::Queue(t))
                    && final(self).queue@ == old(self).queue@.push(t)
            } else {
                final(self).history@ == old(self).history@.push(
                    DownloadProgress::SongNotFoundError(id),
                ) && final(self).queue == old(self).queue
            }),
            resolved is None ==> final(self).history@ == old(self).history@.push(
                DownloadProgress::SongNotFoundError(id),
            ) && final(self).queue == old(self).queue,
    {
        match resolved {
            Some(t) => {
                if t.readable {
                    let ghost t0 = t;
                    let job = t.clone();
                    self.history.push(DownloadProgress::Queue(t));
                    self.queue.push(job);
                    proof {
                        lemma_wf_after_queue(*old(self), *self, t0);
                    }
                } else {
                    self.history.push(DownloadProgress::SongNotFoundError(id));
                    proof {
                        lemma_wf_after_not_found(
                            *old(self),
                            *self,
                            DownloadProgress::SongNotFoundError(id),
                        );
                    }
                }
            },
            None => {
                self.history.push(DownloadProgress::SongNotFoundError(id));
                proof {
                    lemma_wf_after_not_found(
                        *old(self),
                        *self,
                        DownloadProgress::SongNotFoundError(id),
                    );
                }
            },
        }
    }

    /// Decide an album request once the catalog has answered.  A missing
    /// album yields exactly one not-found report.  A found album fans out:
    /// every member is numbered with its per-sub-volume position, announced
    /// as queued, and admitted to the job queue — exactly one queue event per
    /// member, and no member-level not-found report.
    pub fn dispatch_album(&mut self, id: u64, resolved: Option<Vec<Track>>)
        requires
            old(self).wf(),
            fresh_id(old(self).history@, id),
            resolved matches Some(ms) ==> forall|i: int, j: int|
                #![trigger ms@[i], ms@[j]]
                0 <= i < j < ms@.len() ==> ms@[i].id != ms@[j].id,
            resolved matches Some(ms) ==> forall|i: int|
                0 <= i < ms@.len() ==> fresh_id(old(self).history@, #[trigger] ms@[i].id),
        ensures
            final(self).wf(),
            final(self).workers == old(self).workers,
            resolved is None ==> final(self).history@ == old(self).history@.push(
                DownloadProgress::AlbumNotFoundError(id),
            ) && final(self).queue == old(self).queue,
            resolved matches Some(ms) ==> final(self).history@ == old(self).history@
                + queue_events(positioned(ms@)) && final(self).queue@ == old(self).queue@
                + positioned(ms@),
    {
        match resolved {
            Some(ms) => {
                let ghost ms0 = ms@;
                let jobs = crate::dispatch::assign_positions(ms);
                let ghost pms = positioned(ms0);
                proof {
                    assert forall|i: int| 0 <= i < pms.len() implies #[trigger] pms[i].id
                        == ms0[i].id by {}
                }
                let n = jobs.len();
                let mut i: usize = 0;
                while i < n
                    invariant
                        self.wf(),
                        self.workers == old(self).workers,
                        n == pms.len(),
                        jobs@ == pms,
                        i <= n,
                        self.history@ == old(self).history@ + queue_events(pms).take(i as int),
                        self.queue@ == old(self).queue@ + pms.take(i as int),
                        forall|k: int|
                            i <= k < pms.len() ==> fresh_id(self.history@, #[trigger] pms[k].id),
                        forall|a: int, b: int|
                            #![trigger pms[a], pms[b]]
                            0 <= a < b < pms.len() ==> pms[a].id != pms[b].id,
                    decreases n - i,
                {
                    let ghost pre_loop = *self;
                    let t = jobs[i].clone();
                    let ghost t0 = t;
                    let job = t.clone();
                    self.history.push(DownloadProgress::Queue(t));
                    self.queue.push(job);
                    proof {
                        lemma_wf_after_queue(pre_loop, *self, t0);
                        lemma_events_for_push_all(pre_loop.history@, DownloadProgress::Queue(t0));
                        assert(queue_events(pms).take(i + 1) =~= queue_events(pms).take(
                            i as int,
                        ).push(DownloadProgress::Queue(t0)));
                        assert(self.history@ =~= old(self).history@ + queue_events(pms).take(
                            i + 1,
                        ));
                        assert(pms.take(i + 1) =~= pms.take(i as int).push(t0));
                        assert(self.queue@ =~= old(self).queue@ + pms.take(i + 1));
                        assert forall|k: int|
                            i + 1 <= k < pms.len() implies fresh_id(
                            self.history@,
                            #[trigger] pms[k].id,
                        ) by {
                            assert(pms[k].id != t0.id);
                            assert(events_for(self.history@, pms[k].id) == events_for(
                                pre_loop.history@,
                                pms[k].id,
                            ));
                        }
                    }
                    i = i + 1;
                }
                proof {
                    assert(queue_events(pms).take(n as int) =~= queue_events(pms));
                    assert(pms.take(n as int) =~= pms);
                }
            },
            None => {
                self.history.push(DownloadProgress::AlbumNotFoundError(id));
                proof {
                    lemma_wf_after_not_found(
                        *old(self),
                        *self,
                        DownloadProgress::AlbumNotFoundError(id),
                    );
                }
            },
        }
    }

    /// A free worker takes the oldest waiting job and announces that its
    /// download has started.
    pub fn take_job(&mut self, w: usize)
        requires
            old(self).wf(),
            w < old(self).workers@.len(),
            old(self).workers@[w as int] is None,
            old(self).queue@.len() > 0,
        ensures
            final(self).wf(),
            final(self).history@ == old(self).history@.push(
                DownloadProgress::Start(old(self).queue@[0]),
            ),
            final(self).queue@ == old(self).queue@.drop_first(),
            final(self).workers@ == old(self).workers@.update(
                w as int,
                Some(old(self).queue@[0]),
            ),
    {
        let t = self.queue.remove(0);
        let ghost t0 = t;
        let started = t.clone();
        self.history.push(DownloadProgress::Start(started));
        self.workers[w] = Some(t);
        proof {
            assert(self.queue@ =~= old(self).queue@.drop_first());
            lemma_wf_after_start(*old(self), *self, w as int);
        }
    }

    /// A busy worker reports the outcome of its job: a finish on success, a
    /// download error on failure, and either way the slot is free again.  A
    /// failure is isolated: the job queue, every other worker slot, and every
    /// other identifier's events are untouched, so no other queued or
    /// in-flight job is kept from reaching its own terminal event.
    pub fn finish_job(&mut self, w: usize, ok: bool)
        requires
            old(self).wf(),
            w < old(self).workers@.len(),
            old(self).workers@[w as int] is Some,
        ensures
            final(self).wf(),
            final(self).queue == old(self).queue,
            final(self).workers@ == old(self).workers@.update(w as int, None::<Track>),
            old(self).workers@[w as int] matches Some(t) ==> final(self).history@ == old(
                self,
            ).history@.push(
                if ok {
                    DownloadProgress::Finish(t)
                } else {
                    DownloadProgress::DownloadError(t)
                },
            ),
            old(self).workers@[w as int] matches Some(t) ==> forall|id: u64|
                id != t.id ==> events_for(final(self).history@, id) == events_for(
                    old(self).history@,
                    id,
                ),
    {
        let t = match &self.workers[w] {
            Some(tr) => tr.clone(),
            None => unreached(),
        };
        let ghost t0 = t;
        let report = crate::progress::worker_report(t, ok);
        let ghost ev = report;
        self.history.push(report);
        self.workers[w] = None;
        proof {
            lemma_wf_after_terminal(*old(self), *self, w as int, t0, ev);
            lemma_events_for_push_all(old(self).history@, ev);
        }
    }
}

/// Worker-count bound: in every reachable state, the number of items that
/// have been started but not yet driven to a terminal event never exceeds
/// the number of worker slots.
pub proof fn lemma_worker_bound(e: &Engine)
    requires
        e.wf(),
    ensures
        0 <= inflight(e.history@) <= e.workers@.len(),
{
    lemma_busy_count_bounds(e.workers@);
}

/// Per-item order: in every reachable state, the events concerning any one
/// identifier, in stream order, form a prefix of queued → started → exactly
/// one terminal event — or a single not-found report.  In particular an item
/// is started only after it was queued, and receives at most one terminal
/// event.
pub proof fn lemma_per_item_order(e: &Engine, id: u64)
    requires
        e.wf(),
    ensures
        lifecycle_ok(e.history@, id),
{
}

} // verus!
