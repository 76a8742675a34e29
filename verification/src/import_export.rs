//! The import report: what the surrounding application reports after
//! importing notes from an archive.

use vstd::prelude::*;

verus! {

/// The outcome of importing an archive of notes.
#[derive(Debug, Clone)]
pub struct ImportResult {
    /// Number of daily notes imported.
    pub daily_notes: u32,
    /// Number of standalone notes imported.
    pub standalone_notes: u32,
    /// Number of templates imported.
    pub templates: u32,
}

} // verus!
