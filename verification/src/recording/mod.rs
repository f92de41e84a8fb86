pub mod engine;
pub mod shortcut_manager;
