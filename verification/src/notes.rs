//! The note listing entry: what the surrounding application reports for
//! each note file it finds.

use vstd::prelude::*;

verus! {

/// A note file in the system.
#[derive(Debug, Clone)]
pub struct NoteFile {
    /// The filename, such as "my-note.md".
    pub name: String,
    /// The full relative path, such as "notes/folder/my-note.md".
    pub path: String,
    /// Whether this is a daily note.
    pub is_daily: bool,
    /// Whether this is a weekly note.
    pub is_weekly: bool,
    /// The date for daily notes (YYYY-MM-DD).
    pub date: Option<String>,
    /// The week identifier for weekly notes (YYYY-WNN).
    pub week: Option<String>,
    /// Whether the note is encrypted and locked.
    pub is_locked: bool,
    /// The folder path for standalone notes.
    pub folder_path: Option<String>,
}

} // verus!
