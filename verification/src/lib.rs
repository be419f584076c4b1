//! Verified core of a small handheld network terminal: keyboard decoding,
//! line editing, HTTP framing and response handling, audio sample
//! processing and the codec start-up program.

pub mod audio;
pub mod codec;
pub mod config;
pub mod editor;
pub mod exchange;
pub mod keyboard;
pub mod link;
pub mod net;
pub mod terminal;
pub mod ui;
