//! Core of a self-update client: a version-requirement parser, a release
//! resolver that deterministically picks one release out of a catalog
//! listing, and the decision logic of the self-replacement protocol.
//!
//! Network access, the filesystem and the CLI live outside this crate; the
//! functions here work on plain values handed in by that outer layer.

pub mod bytes_order;
pub mod config;
pub mod executor;
pub mod requirement;
pub mod resolver;
pub mod semver_text;
pub mod version;
