//! A verified core for a media-ingestion pipeline: files are routed into a
//! date-derived `YYYY/MM` (or `YYYY/MM tag`) hierarchy, naming collisions are
//! resolved by content hashing — byte-identical duplicates are skipped,
//! genuine collisions get a digest-derived suffix of bounded length — and
//! tag directories left without media are pruned without ever removing a
//! non-empty directory.
//!
//! The crate holds the decisions of the pipeline: filtering, timestamp
//! parsing, target-path construction, collision resolution, the mover's
//! fallback policy, and prune planning. The surrounding driver performs the
//! filesystem traversal and mutation that these decisions call for.

pub mod config;
pub mod conflict;
pub mod filesystem;
pub mod laws;
pub mod metadata;
pub mod naming;
pub mod stats;
pub mod text;

pub use stats::Stats;
