pub mod playback;
pub mod state;
