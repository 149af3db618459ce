//! Parsing of the subtitle-archive listing source.

pub mod entry;
pub mod file;
