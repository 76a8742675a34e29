//! The folder listing entry: what the surrounding application reports for
//! each folder it finds under the notes directory.

use vstd::prelude::*;

verus! {

/// A folder in the hierarchy under the notes directory.
#[derive(Debug)]
pub struct FolderInfo {
    /// The folder name.
    pub name: String,
    /// The relative path from the notes root.
    pub path: String,
    /// Child folders.
    pub children: Vec<FolderInfo>,
}

} // verus!
