use downqueue::log::LogEntry;
use downqueue::progress::{DownloadProgress, DownloadStatus};
use downqueue::projection::StatusProjection;
use downqueue::track::Track;

fn track(id: u64) -> Track {
    Track {
        id,
        title: "Title".to_string(),
        artist: "Artist".to_string(),
        album: "Album".to_string(),
        position: 1,
        volume: 1,
        readable: true,
    }
}

#[test]
fn status_follows_the_transition_table() {
    let mut state = StatusProjection::new();

    state.apply(DownloadProgress::Queue(track(1)));
    assert_eq!(1, state.queue.len());
    assert_eq!(DownloadStatus::Inactive, state.queue[0].status);
    assert!(state.logs.is_empty());

    state.apply(DownloadProgress::Start(track(1)));
    assert_eq!(1, state.queue.len());
    assert_eq!(DownloadStatus::Downloading, state.queue[0].status);
    assert!(state.logs.is_empty());

    state.apply(DownloadProgress::Finish(track(1)));
    assert!(state.queue.is_empty());
    assert_eq!(
        vec![LogEntry::Success("Song with id 1 downloaded.".to_string())],
        state.logs
    );
}

#[test]
fn a_failed_download_is_removed_and_logged_as_error() {
    let mut state = StatusProjection::new();
    state.apply(DownloadProgress::Queue(track(2)));
    state.apply(DownloadProgress::Start(track(2)));
    state.apply(DownloadProgress::DownloadError(track(2)));

    assert!(state.queue.is_empty());
    assert_eq!(
        vec![LogEntry::Error(
            "Error while downloading song with id 2.".to_string()
        )],
        state.logs
    );
}

#[test]
fn start_marks_every_entry_with_that_identifier() {
    let mut state = StatusProjection::new();
    state.apply(DownloadProgress::Queue(track(5)));
    state.apply(DownloadProgress::Queue(track(6)));
    state.apply(DownloadProgress::Queue(track(5)));

    state.apply(DownloadProgress::Start(track(5)));
    assert_eq!(DownloadStatus::Downloading, state.queue[0].status);
    assert_eq!(DownloadStatus::Inactive, state.queue[1].status);
    assert_eq!(DownloadStatus::Downloading, state.queue[2].status);

    // A terminal event removes only the first matching entry.
    state.apply(DownloadProgress::Finish(track(5)));
    assert_eq!(2, state.queue.len());
    assert_eq!(6, state.queue[0].song.id);
    assert_eq!(5, state.queue[1].song.id);
}

#[test]
fn not_found_reports_touch_only_the_log() {
    let mut state = StatusProjection::new();
    state.apply(DownloadProgress::Queue(track(9)));

    state.apply(DownloadProgress::SongNotFoundError(0));
    state.apply(DownloadProgress::AlbumNotFoundError(3));

    assert_eq!(1, state.queue.len());
    assert_eq!(
        vec![
            LogEntry::Error("Song with id 0 was not found.".to_string()),
            LogEntry::Error("Album with id 3 was not found.".to_string()),
        ],
        state.logs
    );
}

#[test]
fn status_labels_match_their_names() {
    assert_eq!("Downloading", DownloadStatus::Downloading.label());
    assert_eq!("Inactive", DownloadStatus::Inactive.label());
}
