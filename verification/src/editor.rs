//! The plain records the editor side of the application exchanges with the
//! file-system and persistence services. Reading metadata, watching files
//! and loading or saving sessions are I/O and happen outside the library;
//! these are the values they hand back and forth.

use vstd::prelude::*;

verus! {

/// Metadata of one file or directory.
#[derive(Debug, Clone)]
pub struct FileMetadata {
    pub name: String,
    pub path: String,
    pub is_directory: bool,
    pub size: Option<u64>,
    pub modified_date: Option<u64>,
    pub created_date: Option<u64>,
    pub readonly: bool,
    pub permissions: String,
    pub parent_path: Option<String>,
}

/// One observed change to a watched file. `change_type` is one of
/// `modified`, `created`, `deleted`, `renamed` or `changed`.
#[derive(Debug, Clone)]
pub struct FileChangeEvent {
    pub path: String,
    pub change_type: String,
    pub timestamp: u64,
}

/// One persisted editor session: the files it had open, the active one,
/// and when it was created and last used.
#[derive(Debug, Clone)]
pub struct EditorSession {
    pub id: String,
    pub files: Vec<String>,
    pub active_file: Option<String>,
    pub created_at: u64,
    pub last_accessed: u64,
}

} // verus!
