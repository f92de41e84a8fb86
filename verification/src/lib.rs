pub mod models;
pub mod timeline;
pub mod undo;
pub mod text;
pub mod clock;
pub mod ids;
pub mod recording;
pub mod commands;
pub mod export;
pub mod paths;
pub mod remote;
pub mod audio;
pub mod autosave;
