//! Aggregation and incremental-synchronization pipeline for per-level
//! competitive leaderboard data.
//!
//! The library covers the five core components: the rank computer, the
//! leaderboard fetch planning and retry decisions, the catalog builder, the
//! identity resolver, and the synchronization planner with its digest-based
//! change detection and marker state machine.  All I/O (catalog paging,
//! leaderboard downloads, name resolution, the relational store) is carried
//! out by an unverified driver that feeds plain values in and out of the
//! functions here.

pub mod catalog;
pub mod common;
pub mod digest;
pub mod fetch;
pub mod identity;
pub mod ranks;
pub mod report;
pub mod sync;
