//! Reconciliation of a local directory tree with a remote object store.
//!
//! The library classifies every file path by where it exists (locally,
//! remotely, or in both places with both digests), keeps the browsing and
//! decision state over that classification, and decides what a push or a
//! pull would transfer. All I/O is left to the caller.

pub mod config;
pub mod cync;
pub mod digest;
pub mod error;
pub mod files;
pub mod laws;
pub mod path;
pub mod scan;
pub mod sync;
