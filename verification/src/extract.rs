//! What to do with the entries of a downloaded archive.
//!
//! Unpacking is done by the caller. For each entry it asks here whether the
//! entry stands for a directory to create or for a file to write.

use vstd::prelude::*;
use vstd::string::*;
use crate::text::{ends_with, has_suffix};

verus! {

/// What an entry of an archive stands for.
#[derive(Debug, Clone, Copy, PartialEq, Eq, Structural)]
pub enum EntryKind {
    /// A directory, to be created with all its parents.
    Directory,
    /// A file, to be written after its parent directory has been created.
    File,
}

/// What the entry named `name` stands for: a directory exactly when the
/// name ends with a slash.
pub open spec fn kind_of_entry(name: Seq<char>) -> EntryKind {
    if has_suffix(name, "/"@) {
        EntryKind::Directory
    } else {
        EntryKind::File
    }
}

/// What the entry named `name` stands for.
pub fn entry_kind(name: &str) -> (r: EntryKind)
    ensures
        r == kind_of_entry(name@),
{
    if ends_with(name, "/") {
        EntryKind::Directory
    } else {
        EntryKind::File
    }
}

} // verus!
