use downqueue::dispatch::{assign_positions, song_events};
use downqueue::progress::{worker_report, DownloadProgress, DownloadRequest};
use downqueue::track::Track;

fn track(id: u64, volume: u64, readable: bool) -> Track {
    Track {
        id,
        title: format!("Title {}", id),
        artist: format!("Artist {}", id),
        album: "Album".to_string(),
        position: 0,
        volume,
        readable,
    }
}

#[test]
fn a_readable_song_becomes_one_queue_event_and_one_job() {
    let (events, jobs) = song_events(42, Some(track(42, 1, true)));
    assert_eq!(1, events.len());
    assert!(matches!(&events[0], DownloadProgress::Queue(t) if t.id == 42));
    assert_eq!(1, jobs.len());
    assert_eq!(42, jobs[0].id);
}

#[test]
fn a_missing_song_becomes_one_not_found_event_and_no_job() {
    let (events, jobs) = song_events(0, None);
    assert_eq!(vec![DownloadProgress::SongNotFoundError(0)], events);
    assert!(jobs.is_empty());
}

#[test]
fn an_unreadable_song_becomes_one_not_found_event_and_no_job() {
    let (events, jobs) = song_events(9, Some(track(9, 1, false)));
    assert_eq!(vec![DownloadProgress::SongNotFoundError(9)], events);
    assert!(jobs.is_empty());
}

#[test]
fn positions_restart_on_every_volume_boundary() {
    let members = vec![
        track(1, 1, true),
        track(2, 1, true),
        track(3, 1, true),
        track(4, 2, true),
        track(5, 2, true),
    ];
    let numbered = assign_positions(members);
    let positions: Vec<u64> = numbered.iter().map(|t| t.position).collect();
    assert_eq!(vec![1, 2, 3, 1, 2], positions);
}

#[test]
fn positions_keep_every_other_field() {
    let members = vec![track(8, 3, true)];
    let numbered = assign_positions(members);
    assert_eq!(1, numbered.len());
    assert_eq!(8, numbered[0].id);
    assert_eq!(3, numbered[0].volume);
    assert_eq!(1, numbered[0].position);
    assert_eq!("Title 8", numbered[0].title);
}

#[test]
fn a_single_volume_album_counts_straight_through() {
    let members = vec![track(1, 1, true), track(2, 1, true), track(3, 1, true)];
    let numbered = assign_positions(members);
    let positions: Vec<u64> = numbered.iter().map(|t| t.position).collect();
    assert_eq!(vec![1, 2, 3], positions);
}

#[test]
fn worker_outcome_is_finish_or_download_error() {
    assert!(matches!(
        worker_report(track(1, 1, true), true),
        DownloadProgress::Finish(t) if t.id == 1
    ));
    assert!(matches!(
        worker_report(track(2, 1, true), false),
        DownloadProgress::DownloadError(t) if t.id == 2
    ));
}

#[test]
fn requests_carry_their_identifier() {
    assert_eq!(DownloadRequest::Song(1), DownloadRequest::Song(1));
    assert_ne!(DownloadRequest::Song(1), DownloadRequest::Album(1));
}
