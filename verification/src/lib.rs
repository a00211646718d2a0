//! Verified core of a backup tool for a hierarchical remote document store.
//!
//! The library mirrors a remote document tree into a local directory tree.
//! It covers the in-memory hierarchy model, the sync planner that decides
//! which documents need re-downloading, the download tally, and the mirror
//! writer modeled over an explicit filesystem state. All network and real
//! filesystem I/O lives outside this crate and hands in plain values.

pub mod download;
pub mod full_backup;
pub mod hierarchy;
pub mod planner;
pub mod scheme;
pub mod utils;
pub mod writer;
