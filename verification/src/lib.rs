//! Verified core of a directory metadata spider.
//!
//! The library enumerates directory trees handed to it as plain events,
//! filters entries by filename extension, turns metadata snapshots into
//! records, streams those records out as one JSON array, and follows
//! shortcut files by enqueueing the directories they point at as new
//! traversal roots, each walked at most once.

pub mod engine;
pub mod filter;
pub mod grammar;
pub mod json;
pub mod record;
pub mod text;
pub mod timefmt;
pub mod writer;
