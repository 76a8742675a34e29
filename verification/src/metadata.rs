//! Per-note metadata: currently a color per note path, stored by the
//! surrounding application in a JSON file in the notes directory.

use vstd::prelude::*;
use vstd::string::StringExecFns;

verus! {

/// Note metadata container.
#[derive(Debug, Clone)]
pub struct NoteMetadata {
    /// Map of note path to color identifier.
    pub colors: std::collections::HashMap<String, String>,
}

impl NoteMetadata {
    /// An empty container.
    pub fn new() -> (r: NoteMetadata)
        ensures
            r.colors@.len() == 0,
    {
        NoteMetadata { colors: std::collections::HashMap::new() }
    }
}

/// The path of the metadata file under the notes directory.
pub fn get_metadata_path(notes_dir: &str) -> (r: String)
    ensures
        r@ == notes_dir@ + "/.note-metadata.json"@,
{
    let mut s = notes_dir.to_owned();
    s.append("/.note-metadata.json");
    s
}

} // verus!
