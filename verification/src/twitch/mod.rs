//! Twitch chat: IRC line parsing, per-channel connection decisions and
//! device-flow authentication decisions.

pub mod message;
pub mod irc;
pub mod connection;
pub mod auth;
pub mod token_store;
