//! Data structures of the lorri change log.

use vstd::prelude::*;

verus! {

/// A representation of the release.nix change log format.
#[derive(Debug)]
pub struct Log {
    /// a list of ordered change log entries, newest first.
    pub entries: Vec<Entry>,
}

/// A specific changelog entry
#[derive(Debug)]
pub struct Entry {
    /// The version number (note: increasing number, not x.y.z)
    pub version: usize,
    /// A plain-text blob of change log text.
    pub changes: String,
}

} // verus!
