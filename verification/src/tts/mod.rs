//! Speech: language detection, voice choice, the text handed to Piper and
//! the decoding of its output, and the automatic installation decisions.

pub mod language;
pub mod queue;
pub mod piper;
pub mod installer;
