//! Counting recent activity in a stream of issue and pull-request records.
//!
//! Two parts work in sequence. The [`collector`] gathers the pages of a
//! search into one list of items, stopping when the expected number has been
//! seen or when a fetch fails. The [`classifier`] counts the items whose date
//! field lies after a cutoff, and can report each of them as a line of text.
//!
//! The library does no I/O: the caller performs each fetch and hands the
//! outcome to the collector.

pub mod classifier;
pub mod collector;
pub mod instant;
pub mod item;
