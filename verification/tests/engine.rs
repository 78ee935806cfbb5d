use downqueue::engine::Engine;
use downqueue::progress::DownloadProgress;
use downqueue::track::Track;

fn track(id: u64, volume: u64, readable: bool) -> Track {
    Track {
        id,
        title: format!("Title {}", id),
        artist: format!("Artist {}", id),
        album: "Album".to_string(),
        position: 0,
        volume,
        readable,
    }
}

fn inflight(history: &[DownloadProgress]) -> usize {
    let started = history
        .iter()
        .filter(|e| matches!(e, DownloadProgress::Start(_)))
        .count();
    let done = history
        .iter()
        .filter(|e| {
            matches!(
                e,
                DownloadProgress::Finish(_) | DownloadProgress::DownloadError(_)
            )
        })
        .count();
    started - done
}

#[test]
fn song_lifecycle_is_queued_started_finished() {
    let mut engine = Engine::new(2);
    engine.dispatch_song(42, Some(track(42, 1, true)));
    engine.take_job(0);
    engine.finish_job(0, true);

    assert_eq!(3, engine.history.len());
    assert!(matches!(&engine.history[0], DownloadProgress::Queue(t) if t.id == 42));
    assert!(matches!(&engine.history[1], DownloadProgress::Start(t) if t.id == 42));
    assert!(matches!(&engine.history[2], DownloadProgress::Finish(t) if t.id == 42));
    assert!(engine.queue.is_empty());
    assert!(engine.workers.iter().all(|w| w.is_none()));
}

#[test]
fn not_found_song_yields_exactly_one_error_and_nothing_else() {
    let mut engine = Engine::new(4);
    engine.dispatch_song(0, None);

    assert_eq!(
        vec![DownloadProgress::SongNotFoundError(0)],
        engine.history
    );
    assert!(engine.queue.is_empty());
}

#[test]
fn unreadable_song_is_reported_not_found() {
    let mut engine = Engine::new(4);
    engine.dispatch_song(7, Some(track(7, 1, false)));

    assert_eq!(
        vec![DownloadProgress::SongNotFoundError(7)],
        engine.history
    );
    assert!(engine.queue.is_empty());
}

#[test]
fn not_found_album_yields_exactly_one_error() {
    let mut engine = Engine::new(4);
    engine.dispatch_album(5, None);

    assert_eq!(
        vec![DownloadProgress::AlbumNotFoundError(5)],
        engine.history
    );
    assert!(engine.queue.is_empty());
}

#[test]
fn album_fanout_queues_every_member_with_per_volume_positions() {
    let mut engine = Engine::new(2);
    let members = vec![
        track(1, 1, true),
        track(2, 1, true),
        track(3, 2, true),
        track(4, 2, true),
        track(5, 2, true),
    ];
    engine.dispatch_album(100, Some(members));

    assert_eq!(5, engine.history.len());
    assert_eq!(5, engine.queue.len());
    let positions: Vec<u64> = engine.queue.iter().map(|t| t.position).collect();
    assert_eq!(vec![1, 2, 1, 2, 3], positions);
    for (i, event) in engine.history.iter().enumerate() {
        match event {
            DownloadProgress::Queue(t) => assert_eq!(t.id, engine.queue[i].id),
            other => panic!("expected a queue event, got {:?}", other),
        }
    }
}

#[test]
fn album_members_all_reach_a_terminal_event() {
    let mut engine = Engine::new(2);
    let members = vec![
        track(1, 1, true),
        track(2, 1, true),
        track(3, 1, true),
        track(4, 1, true),
    ];
    engine.dispatch_album(100, Some(members));

    // Drive the pool: a free worker takes a job, outcomes alternate.
    let mut ok = true;
    while !engine.queue.is_empty() || engine.workers.iter().any(|w| w.is_some()) {
        if let Some(free) = engine.workers.iter().position(|w| w.is_none()) {
            if !engine.queue.is_empty() {
                engine.take_job(free);
                continue;
            }
        }
        let busy = engine.workers.iter().position(|w| w.is_some()).unwrap();
        engine.finish_job(busy, ok);
        ok = !ok;
    }

    let terminals = engine
        .history
        .iter()
        .filter(|e| {
            matches!(
                e,
                DownloadProgress::Finish(_) | DownloadProgress::DownloadError(_)
            )
        })
        .count();
    let queued = engine
        .history
        .iter()
        .filter(|e| matches!(e, DownloadProgress::Queue(_)))
        .count();
    assert_eq!(4, queued);
    assert_eq!(4, terminals);
}

#[test]
fn at_most_worker_count_jobs_are_in_flight() {
    let mut engine = Engine::new(2);
    for id in 1..=5 {
        engine.dispatch_song(id, Some(track(id, 1, true)));
    }
    assert_eq!(5, engine.queue.len());

    engine.take_job(0);
    engine.take_job(1);
    assert_eq!(2, inflight(&engine.history));
    assert!(engine.workers.iter().all(|w| w.is_some()));

    // The pool is saturated; progress requires a terminal event first.
    engine.finish_job(0, true);
    assert_eq!(1, inflight(&engine.history));
    engine.take_job(0);
    assert_eq!(2, inflight(&engine.history));

    while !engine.queue.is_empty() || engine.workers.iter().any(|w| w.is_some()) {
        assert!(inflight(&engine.history) <= 2);
        if let Some(free) = engine.workers.iter().position(|w| w.is_none()) {
            if !engine.queue.is_empty() {
                engine.take_job(free);
                continue;
            }
        }
        let busy = engine.workers.iter().position(|w| w.is_some()).unwrap();
        engine.finish_job(busy, true);
    }
    assert_eq!(0, inflight(&engine.history));
}

#[test]
fn one_failure_does_not_stop_other_jobs() {
    let mut engine = Engine::new(2);
    engine.dispatch_song(1, Some(track(1, 1, true)));
    engine.dispatch_song(2, Some(track(2, 1, true)));
    engine.dispatch_song(3, Some(track(3, 1, true)));
    engine.take_job(0);
    engine.take_job(1);

    // Worker 0 fails its job; worker 1 and the queued job are untouched.
    engine.finish_job(0, false);
    assert!(matches!(&engine.workers[1], Some(t) if t.id == 2));
    assert_eq!(1, engine.queue.len());
    assert_eq!(3, engine.queue[0].id);

    engine.finish_job(1, true);
    engine.take_job(1);
    engine.finish_job(1, true);

    assert!(engine
        .history
        .iter()
        .any(|e| matches!(e, DownloadProgress::DownloadError(t) if t.id == 1)));
    assert!(engine
        .history
        .iter()
        .any(|e| matches!(e, DownloadProgress::Finish(t) if t.id == 2)));
    assert!(engine
        .history
        .iter()
        .any(|e| matches!(e, DownloadProgress::Finish(t) if t.id == 3)));
}
