//! Content filtering and spam protection.

pub mod antispam;
pub mod rules;
