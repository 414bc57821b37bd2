//! The stored shape of a note row and the shape handed back to clients.

use vstd::prelude::*;

verus! {

/// A row of the notes table. The publication flag keeps the narrow
/// integer encoding the storage column uses; timestamps are kept as
/// seconds since the epoch.
pub struct NoteModel {
    pub id: String,
    pub title: String,
    pub content: String,
    pub is_published: i8,
    pub created_at: i64,
    pub updated_at: i64,
}

/// The abstract value of a stored row.
pub ghost struct NoteView {
    pub id: Seq<char>,
    pub title: Seq<char>,
    pub content: Seq<char>,
    pub is_published: int,
    pub created_at: int,
    pub updated_at: int,
}

impl View for NoteModel {
    type V = NoteView;

    open spec fn view(&self) -> NoteView {
        NoteView {
            id: self.id@,
            title: self.title@,
            content: self.content@,
            is_published: self.is_published as int,
            created_at: self.created_at as int,
            updated_at: self.updated_at as int,
        }
    }
}

/// The outward representation of a note: the publication flag is a
/// definite boolean, whatever integer the row held.
pub struct NoteModelResponse {
    pub id: String,
    pub title: String,
    pub content: String,
    pub is_published: bool,
    pub created_at: i64,
    pub updated_at: i64,
}

/// The abstract value of an outward representation.
pub ghost struct RespView {
    pub id: Seq<char>,
    pub title: Seq<char>,
    pub content: Seq<char>,
    pub is_published: bool,
    pub created_at: int,
    pub updated_at: int,
}

impl View for NoteModelResponse {
    type V = RespView;

    open spec fn view(&self) -> RespView {
        RespView {
            id: self.id@,
            title: self.title@,
            content: self.content@,
            is_published: self.is_published,
            created_at: self.created_at as int,
            updated_at: self.updated_at as int,
        }
    }
}

/// The representation a stored row is shown as.
pub open spec fn resp_of(n: NoteView) -> RespView {
    RespView {
        id: n.id,
        title: n.title,
        content: n.content,
        is_published: n.is_published != 0,
        created_at: n.created_at,
        updated_at: n.updated_at,
    }
}

/// Converts a stored row to its outward representation.
pub fn to_note_response(note: &NoteModel) -> (r: NoteModelResponse)
    ensures
        r@ == resp_of(note@),
{
    NoteModelResponse {
        id: note.id.clone(),
        title: note.title.clone(),
        content: note.content.clone(),
        is_published: note.is_published != 0,
        created_at: note.created_at,
        updated_at: note.updated_at,
    }
}

} // verus!
