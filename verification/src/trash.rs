//! Trash types: what a trashed note or folder carries, and the metadata
//! container the surrounding application persists in the trash directory.

use vstd::prelude::*;
use vstd::string::StringExecFns;

verus! {

/// A note or folder in the trash, as presented to the frontend.
#[derive(Debug, Clone)]
pub struct TrashedNote {
    /// Unique identifier for this trash item.
    pub id: String,
    /// Original filename or folder name.
    pub filename: String,
    /// Original path before deletion.
    pub original_path: String,
    /// Whether this was a daily note.
    pub is_daily: bool,
    /// Whether this is a folder.
    pub is_folder: bool,
    /// Files contained, for folders.
    pub contained_files: Vec<String>,
    /// Unix timestamp when trashed.
    pub trashed_at: i64,
    /// Days remaining before automatic deletion.
    pub days_remaining: i32,
}

/// One stored trash record.
#[derive(Debug, Clone)]
pub struct TrashedNoteMetadata {
    pub id: String,
    pub filename: String,
    pub original_path: String,
    pub is_daily: bool,
    pub is_folder: bool,
    pub contained_files: Vec<String>,
    pub trashed_at: i64,
}

/// Container for all trash records.
#[derive(Debug, Clone)]
pub struct TrashMetadata {
    pub items: Vec<TrashedNoteMetadata>,
}

impl TrashMetadata {
    /// An empty container.
    pub fn new() -> (r: TrashMetadata)
        ensures
            r.items@.len() == 0,
    {
        TrashMetadata { items: Vec::new() }
    }
}

/// The path of the trash metadata file under the trash directory.
pub fn get_trash_metadata_path(trash_dir: &str) -> (r: String)
    ensures
        r@ == trash_dir@ + "/metadata.json"@,
{
    let mut s = trash_dir.to_owned();
    s.append("/metadata.json");
    s
}

} // verus!
