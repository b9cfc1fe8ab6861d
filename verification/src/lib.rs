//! Verified core of the OpenSuperWhisper desktop dictation tool: settings,
//! transcript text handling, model catalogue and downloads, recording
//! sessions and history bookkeeping.

pub mod paths;
pub mod text;
pub mod catalogue;
pub mod transcript;
pub mod downloads;
pub mod recording;
pub mod settings;
pub mod history;
pub mod tray;
pub mod playback;
