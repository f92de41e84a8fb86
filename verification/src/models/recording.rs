use vstd::prelude::*;

use crate::clock::UtcTime;
use crate::models::timeline::TimelineEvent;

verus! {

#[derive(Clone, Copy, Debug, PartialEq, Eq, Structural)]
pub enum RecordingStatus {
    Idle,
    Recording,
    Paused,
    Stopped,
}

/// A recording in progress: when it began, where it stands and what it caught.
///
/// `current_time_us` is microseconds into the recording.
pub struct RecordingSession {
    pub session_id: String,
    pub started_at: UtcTime,
    pub status: RecordingStatus,
    pub current_time_us: i64,
    pub events_buffer: Vec<TimelineEvent>,
}

} // verus!
