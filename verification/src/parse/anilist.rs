//! Parsing and reconciliation of the metadata source's rendered pages.

pub mod entry;
pub mod format;
pub mod genre;
pub mod source;
pub mod status;
