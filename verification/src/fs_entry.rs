//! The record a directory listing yields for one entry: its name, its full
//! path, and whether it is a directory or a regular file.

use vstd::prelude::*;

verus! {

/// One entry of a directory listing.
pub struct FsEntry {
    pub name: String,
    pub path: String,
    pub is_dir: bool,
    pub is_file: bool,
}

impl FsEntry {
    /// The record for one listed entry, holding exactly what was observed.
    pub fn new(name: String, path: String, is_dir: bool, is_file: bool) -> (e: FsEntry)
        ensures
            e == (FsEntry { name, path, is_dir, is_file }),
    {
        FsEntry { name, path, is_dir, is_file }
    }
}

} // verus!
