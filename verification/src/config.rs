//! The configuration the outer layer hands to the core: which repository to
//! read releases from, the tag prefix in front of version numbers, and the
//! version requirement. Read once, immutable afterwards.

use vstd::prelude::*;
use crate::requirement::DownloadVersion;

verus! {

/// The repository to download updates from.
#[derive(Debug, Clone, PartialEq, Eq)]
pub struct RepoId {
    pub owner: String,
    pub name: String,
}

/// Configuration for the self-update flow. Read from the downstream
/// repository by the outer layer.
#[derive(Debug, Clone)]
pub struct Config {
    /// The repository to download updates from.
    pub repo: RepoId,
    /// The prefix for version numbers.
    pub prefix: String,
    /// The version requirement to download.
    pub version: DownloadVersion,
}

} // verus!
