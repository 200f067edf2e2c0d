//! Finds the version-control repository roots under a base directory, and
//! keeps a selection that moves with wraparound over the list of them.
//!
//! The directory walk itself belongs to the caller: for each entry it meets,
//! [`search::decide`] says whether to walk into it, to prune it, or to report
//! its parent as a repository root.

pub mod config;
pub mod list;
pub mod search;
pub mod session;
