//! The consumer-facing log: which progress events produce a log line, and
//! exactly what that line says.

use vstd::prelude::*;
use vstd::string::*;
use crate::numeral::{decimal_string, spec_decimal};
use crate::progress::DownloadProgress;

verus! {

/// One line of the consumer's log: a success or an error, with its message.
#[derive(Debug, PartialEq)]
pub enum LogEntry {
    Error(String),
    Success(String),
}

impl Clone for LogEntry {
    /// Cloning keeps the variant and the message.
    fn clone(&self) -> (r: Self)
        ensures
            r == *self,
    {
        match self {
            LogEntry::Error(m) => LogEntry::Error(m.clone()),
            LogEntry::Success(m) => LogEntry::Success(m.clone()),
        }
    }
}

/// The message logged when the song with identifier `id` finished downloading.
pub open spec fn success_message(id: u64) -> Seq<char> {
    "Song with id "@ + spec_decimal(id as int) + " downloaded."@
}

/// The message logged when the download of the song with identifier `id` failed.
pub open spec fn download_error_message(id: u64) -> Seq<char> {
    "Error while downloading song with id "@ + spec_decimal(id as int) + "."@
}

/// The message logged when no song with identifier `id` could be resolved.
pub open spec fn song_not_found_message(id: u64) -> Seq<char> {
    "Song with id "@ + spec_decimal(id as int) + " was not found."@
}

/// The message logged when no album with identifier `id` could be resolved.
pub open spec fn album_not_found_message(id: u64) -> Seq<char> {
    "Album with id "@ + spec_decimal(id as int) + " was not found."@
}

/// `entry` is exactly the log line that `progress` produces.
pub open spec fn log_matches(entry: LogEntry, progress: DownloadProgress) -> bool {
    match progress {
        DownloadProgress::Queue(_) => false,
        DownloadProgress::Start(_) => false,
        DownloadProgress::Finish(t) => entry matches LogEntry::Success(m) && m@ == success_message(
            t.id,
        ),
        DownloadProgress::DownloadError(t) => entry matches LogEntry::Error(m) && m@
            == download_error_message(t.id),
        DownloadProgress::SongNotFoundError(id) => entry matches LogEntry::Error(m) && m@
            == song_not_found_message(id),
        DownloadProgress::AlbumNotFoundError(id) => entry matches LogEntry::Error(m) && m@
            == album_not_found_message(id),
    }
}

/// The log line for one progress event: queueing and starting are silent, a
/// terminal outcome and a not-found report each produce exactly one line.
pub fn get_log_from_progress(progress: &DownloadProgress) -> (r: Option<LogEntry>)
    ensures
        r is None <==> (*progress is Queue || *progress is Start),
        r matches Some(entry) ==> log_matches(entry, *progress),
{
    match progress {
        DownloadProgress::Queue(_) => None,
        DownloadProgress::Start(_) => None,
        DownloadProgress::Finish(t) => {
            let mut m = String::from_str("Song with id ");
            let d = decimal_string(t.id);
            m.append(d.as_str());
            m.append(" downloaded.");
            proof {
                assert(m@ =~= success_message(t.id));
            }
            Some(LogEntry::Success(m))
        },
        DownloadProgress::DownloadError(t) => {
            let mut m = String::from_str("Error while downloading song with id ");
            let d = decimal_string(t.id);
            m.append(d.as_str());
            m.append(".");
            proof {
                assert(m@ =~= download_error_message(t.id));
            }
            Some(LogEntry::Error(m))
        },
        DownloadProgress::SongNotFoundError(id) => {
            let mut m = String::from_str("Song with id ");
            let d = decimal_string(*id);
            m.append(d.as_str());
            m.append(" was not found.");
            proof {
                assert(m@ =~= song_not_found_message(*id));
            }
            Some(LogEntry::Error(m))
        },
        DownloadProgress::AlbumNotFoundError(id) => {
            let mut m = String::from_str("Album with id ");
            let d = decimal_string(*id);
            m.append(d.as_str());
            m.append(" was not found.");
            proof {
                assert(m@ =~= album_not_found_message(*id));
            }
            Some(LogEntry::Error(m))
        },
    }
}

} // verus!
