pub mod project;
pub mod recording;
pub mod slot;
pub mod timeline;
