//! The shapes of incoming requests: pagination options, creation
//! payloads and partial-update payloads.

use vstd::prelude::*;

verus! {

/// Query parameters for listing notes with pagination.
#[derive(Debug, Default)]
pub struct FilterOptions {
    pub page: Option<usize>,
    pub limit: Option<usize>,
}

/// Payload for creating a new note.
#[derive(Debug)]
pub struct CreateNoteSchema {
    pub title: String,
    pub content: String,
    pub is_published: Option<bool>,
}

/// Payload for updating an existing note; omitted fields keep their
/// previous value.
#[derive(Debug)]
pub struct UpdateNoteSchema {
    pub title: Option<String>,
    pub content: Option<String>,
    pub is_published: Option<bool>,
}

} // verus!
