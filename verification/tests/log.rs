use downqueue::log::{get_log_from_progress, LogEntry};
use downqueue::numeral::decimal_string;
use downqueue::progress::DownloadProgress;
use downqueue::track::Track;

fn track(id: u64) -> Track {
    Track {
        id,
        title: "Title".to_string(),
        artist: "Artist".to_string(),
        album: "Album".to_string(),
        position: 1,
        volume: 1,
        readable: true,
    }
}

#[test]
fn decimal_rendering_is_exact() {
    assert_eq!("0", decimal_string(0));
    assert_eq!("7", decimal_string(7));
    assert_eq!("10", decimal_string(10));
    assert_eq!("12345", decimal_string(12345));
    assert_eq!("18446744073709551615", decimal_string(u64::MAX));
}

#[test]
fn queue_and_start_produce_no_log_line() {
    assert_eq!(None, get_log_from_progress(&DownloadProgress::Queue(track(1))));
    assert_eq!(None, get_log_from_progress(&DownloadProgress::Start(track(1))));
}

#[test]
fn finish_logs_a_success_line() {
    assert_eq!(
        Some(LogEntry::Success("Song with id 7 downloaded.".to_string())),
        get_log_from_progress(&DownloadProgress::Finish(track(7)))
    );
}

#[test]
fn download_error_logs_an_error_line() {
    assert_eq!(
        Some(LogEntry::Error(
            "Error while downloading song with id 7.".to_string()
        )),
        get_log_from_progress(&DownloadProgress::DownloadError(track(7)))
    );
}

#[test]
fn song_not_found_logs_an_error_line() {
    assert_eq!(
        Some(LogEntry::Error("Song with id 0 was not found.".to_string())),
        get_log_from_progress(&DownloadProgress::SongNotFoundError(0))
    );
}

#[test]
fn album_not_found_logs_an_error_line() {
    assert_eq!(
        Some(LogEntry::Error("Album with id 3 was not found.".to_string())),
        get_log_from_progress(&DownloadProgress::AlbumNotFoundError(3))
    );
}
