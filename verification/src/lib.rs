//! Verified core of a background download queue.
//!
//! The library models the engine of a music downloader: requests for a single
//! song or for a whole album are resolved into concrete tracks, every track is
//! announced on an ordered progress stream, handed to a fixed pool of workers,
//! and driven to exactly one terminal outcome.  The surrounding shell (terminal
//! UI, network lookups, the byte-level transfer) stays outside; the decisions it
//! needs — what to queue, which events to emit, how to fold events into display
//! state, how to make a file name safe — are all proved here.

pub mod dispatch;
pub mod engine;
pub mod log;
pub mod numeral;
pub mod progress;
pub mod projection;
pub mod sanitize;
pub mod track;
