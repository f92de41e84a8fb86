use vstd::prelude::*;

use crate::clock::UtcTime;
use crate::models::slot::Slot;
use crate::models::timeline::TimelineEvent;

verus! {

/// Per-project preferences.
#[derive(Clone, Copy, Debug, PartialEq, Eq, Structural)]
pub struct ProjectSettings {
    pub global_shortcuts_enabled: bool,
    pub audio_buffer_size: u32,
    pub frame_rate: u32,
    pub board_rows: u8,
    pub board_columns: u8,
}

impl Default for ProjectSettings {
    fn default() -> (r: Self)
        ensures
            r == (ProjectSettings {
                global_shortcuts_enabled: false,
                audio_buffer_size: 512,
                frame_rate: 30,
                board_rows: 5,
                board_columns: 5,
            }),
    {
        ProjectSettings {
            global_shortcuts_enabled: false,
            audio_buffer_size: 512,
            frame_rate: 30,
            board_rows: 5,
            board_columns: 5,
        }
    }
}

/// The timeline as a project stores it.
pub struct TimelineData {
    pub events: Vec<TimelineEvent>,
    pub total_duration_us: i64,
}

/// Everything a project file holds.
pub struct Project {
    pub version: String,
    pub project_name: String,
    pub created_at: UtcTime,
    pub modified_at: UtcTime,
    pub settings: ProjectSettings,
    pub slots: Vec<Slot>,
    pub timeline: TimelineData,
}

} // verus!
