//! Service-level laws: how the operations compose across calls.
//! Each is stated over the table model and the spec functions the
//! operations' own contracts use.

use vstd::prelude::*;

use crate::handler::{merged_view, new_note_view};
use crate::model::{NoteView, resp_of};
use crate::schema::UpdateNoteSchema;
use crate::store::{has_id, idx_of, insert_pos, lemma_create_effect, lemma_delete_effect, sorted_by_id};

verus! {

/// Creating a note and then fetching it by its id yields a
/// representation whose title and content match the creation payload,
/// with a freshly generated timestamp pair (creation and update time
/// equal). The table a creation leaves behind is exactly the old one
/// with the new row at its place in id order, so the fetch finds it.
pub proof fn lemma_create_then_get(s: Seq<NoteView>, id: Seq<char>, title: Seq<char>, content: Seq<char>, now: int)
    requires
        sorted_by_id(s),
        !has_id(s, id),
    ensures
        sorted_by_id(s.insert(insert_pos(s, id), new_note_view(id, title, content, now))),
        has_id(s.insert(insert_pos(s, id), new_note_view(id, title, content, now)), id),
        s.insert(insert_pos(s, id), new_note_view(id, title, content, now))[idx_of(
            s.insert(insert_pos(s, id), new_note_view(id, title, content, now)),
            id,
        )] == new_note_view(id, title, content, now),
        resp_of(new_note_view(id, title, content, now)).title == title,
        resp_of(new_note_view(id, title, content, now)).content == content,
        resp_of(new_note_view(id, title, content, now)).created_at == now,
        resp_of(new_note_view(id, title, content, now)).updated_at == now,
{
    lemma_create_effect(s, new_note_view(id, title, content, now));
}

/// An update that supplies only a content leaves the title and the
/// observable publication flag unchanged, and replaces the content.
pub proof fn lemma_update_keeps_omitted_fields(cur: NoteView, p: &UpdateNoteSchema, now: int)
    requires
        p.title is None,
        p.is_published is None,
        p.content is Some,
    ensures
        merged_view(cur, p, now).title == cur.title,
        resp_of(merged_view(cur, p, now)).is_published == resp_of(cur).is_published,
        merged_view(cur, p, now).content == p.content.unwrap()@,
        merged_view(cur, p, now).id == cur.id,
        merged_view(cur, p, now).created_at == cur.created_at,
{
}

/// Deleting a note removes its id from the table: a second delete of
/// the same id finds no row.
pub proof fn lemma_delete_then_delete_misses(s: Seq<NoteView>, id: Seq<char>)
    requires
        sorted_by_id(s),
        has_id(s, id),
    ensures
        !has_id(s.remove(idx_of(s, id)), id),
{
    lemma_delete_effect(s, id);
}

/// After a note is created under an id, that id is taken: a second
/// creation under the same id meets a table that has it, and so is
/// refused as a conflict.
pub proof fn lemma_duplicate_create_conflicts(s: Seq<NoteView>, id: Seq<char>, title: Seq<char>, content: Seq<char>, now: int)
    requires
        sorted_by_id(s),
        !has_id(s, id),
    ensures
        has_id(s.insert(insert_pos(s, id), new_note_view(id, title, content, now)), id),
        sorted_by_id(s.insert(insert_pos(s, id), new_note_view(id, title, content, now))),
{
    lemma_create_effect(s, new_note_view(id, title, content, now));
}

} // verus!
