//! Selection core of a backup tool for Linux directories.
//!
//! The crate decides which filesystem entries of a run belong in its
//! archive, under which name, and how the record of earlier runs changes
//! when a run completes. Reading the filesystem and writing the archive
//! are left to the caller, which hands this crate plain values.

pub mod archiver;
pub mod backup;
pub mod cli;
pub mod error;
pub mod filter;
pub mod metadata;
pub mod paths;
pub mod run;
pub mod selection;
