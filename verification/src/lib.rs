//! Catalog acquisition and enrichment library.
//!
//! Joins a subtitle-archive listing source with an anime-metadata source:
//! listing pages are parsed into entries, each entry's file list is reduced
//! to summary statistics, a rendered metadata page is reconciled from its
//! head and body fragments, and one denormalized row per entry is handed to
//! an append-only sink. Network and browser work live outside this crate;
//! the parsing, merging, aggregation and failure-containment logic here is
//! verified.

pub mod convert;
pub mod errors;
pub mod external;
pub mod limiter;
pub mod parse;
pub mod runner;
pub mod storage;
pub mod text;
pub mod util;
