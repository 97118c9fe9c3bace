//! Reconciliation logic for keeping an F-Droid style repository in step with
//! the releases that its applications publish upstream.
//!
//! Every function in this crate is a pure computation on values handed in by
//! the caller; fetching releases, running the indexer and touching the file
//! system are left to the program around it.

pub mod changes;
pub mod error;
pub mod filename;
pub mod identity;
pub mod index;
pub mod metadata;
pub mod readme;
pub mod registry;
pub mod release;
pub mod screenshots;
pub mod string_map;
pub mod text;
