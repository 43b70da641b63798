//! Detection of byte-identical duplicate files.
//!
//! The crate walks directory trees, filters the files it meets by size and
//! extension, groups candidates by exact byte size, digests their contents,
//! and reports groups of files that share a digest, ordered by the space a
//! deduplication would reclaim.  A small session controller serialises scans
//! and carries a cooperative cancellation flag.

pub mod delete;
pub mod duplicates;
pub mod error;
pub mod events;
pub mod filter;
pub mod hasher;
pub mod pipeline;
pub mod scan;
pub mod state;
pub mod text;
pub mod types;
