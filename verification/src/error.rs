//! The ways in which an input can be rejected.

use vstd::prelude::*;

verus! {

/// Why a value was rejected.
#[derive(Clone, Copy, Debug, PartialEq, Eq, Structural)]
pub enum Error {
    /// A source URL that is no absolute URL, or whose path lacks an owner
    /// and a project segment.
    InvalidRepoUrl,
    /// A registry entry without a key, or whose source URL is invalid.
    InvalidRegistryEntry,
    /// A document without the line that opens its table of applications.
    MissingTableStart,
    /// A document without the line that closes its table of applications.
    MissingTableEnd,
}

} // verus!
