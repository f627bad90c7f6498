//! Core logic of the Twitch voice reader: IRC chat parsing, content filters,
//! anti-spam, the decision taken on each message, voice selection and the
//! text handed to the speech engine, the decoding of its output, the
//! installation decisions, authentication and reconnection decisions, and
//! the session statistics.

pub mod audio;
pub mod config;
pub mod error;
pub mod filters;
pub mod pipeline;
pub mod stats;
pub mod string_map;
pub mod text;
pub mod tts;
pub mod twitch;
