pub mod entry;
pub mod flags;
