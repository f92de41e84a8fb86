pub mod timeline_commands;
pub mod undo_commands;
pub mod slot_commands;
pub mod recording_commands;
pub mod shortcut_commands;
pub mod project_commands;
