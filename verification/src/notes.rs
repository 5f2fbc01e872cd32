//! The notes sub-vault: sensitive text that does not fit a password
//! field.

use vstd::prelude::*;

verus! {

/// One note.
#[derive(Debug, Clone)]
pub struct NoteEntry {
    /// Identifies the note for updates and deletions.
    pub id: String,
    /// The title shown in the list.
    pub title: String,
    /// The body of the note.
    pub content: String,
    /// When the note was created, in milliseconds since the epoch.
    pub created_at: i64,
    /// When the note was last changed.
    pub updated_at: i64,
    /// Whether the note is pinned to the top.
    pub is_pinned: bool,
}

/// The list of all notes.
#[derive(Debug)]
pub struct NotesVault {
    pub entries: Vec<NoteEntry>,
}

impl NotesVault {
    /// An empty notes vault.
    pub fn new() -> (vault: NotesVault)
        ensures
            vault.entries@.len() == 0,
    {
        NotesVault { entries: Vec::new() }
    }
}

} // verus!
