//! A personal media vault's dual-target synchronized operation coordinator.
//!
//! A primary store (filesystem root plus relational index) is the source of
//! truth; an optional backup store mirrors it. Every mutating action is
//! applied once, durably, to the primary, then attempted against the backup;
//! a temporarily unreachable backup never blocks primary progress and never
//! loses a pending mutation: it is kept in a FIFO retry queue and flushed,
//! in order, when the backup is reachable again.

pub mod clock;
pub mod config;
pub mod duplicates;
pub mod engine;
pub mod errors;
pub mod file_ops;
pub mod filter;
pub mod laws;
pub mod models;
pub mod mutation;
pub mod oplog;
pub mod pathname;
pub mod seq_search;
pub mod store;
pub mod tags;
