//! The core of a dual-pane file manager: directory listings, panel state,
//! file digests, archive naming, offline registration codes and the
//! decisions that answer each user action.
pub mod text;
pub mod sort;
pub mod fs;
pub mod paths;
pub mod model;
pub mod digest;
pub mod hash;
pub mod registration;
pub mod archive;
pub mod commander;

use vstd::prelude::*;

verus! {

/// A directory entry as listed from the file system.
#[derive(Debug, Clone)]
pub struct Entry {
    /// The file or directory name (no parent path)
    pub name: String,
    /// Whether this entry is a directory
    pub is_dir: bool,
    /// File size in bytes when applicable
    pub size: Option<u64>,
    /// Last modification time, in nanoseconds relative to the Unix epoch
    /// (negative before it)
    pub modified: Option<i128>,
}

} // verus!
