//! The service operations, one per route: each parses nothing and
//! performs no transport work, it takes plain request values and the
//! notes table, and returns a status code with a typed response
//! envelope.

use vstd::prelude::*;
use vstd::string::StringExecFns;

use crate::model::{NoteModel, NoteModelResponse, NoteView, RespView, resp_of};
use crate::schema::{CreateNoteSchema, FilterOptions, UpdateNoteSchema};
use crate::store::{NoteStore, has_id, idx_of, insert_pos, lemma_create_effect, lemma_delete_effect, lemma_idx_of_props, lemma_update_effect, page_len};
use crate::strutil::{contains_seq, str_contains};

verus! {

/// The uniform response body: a status discriminator together with
/// either a payload or a message.
pub enum Envelope {
    /// "success" with a fixed message: the health check.
    Success { message: String },
    /// "ok" with a single note representation.
    Data { note: NoteModelResponse },
    /// "ok" with a count and a page of note representations.
    NoteList { count: usize, notes: Vec<NoteModelResponse> },
    /// "ok" with a confirmation message.
    Notice { message: String },
    /// "error" with a message describing the failure.
    Failure { message: String },
}

/// A finished response: HTTP status code plus envelope.
pub struct HttpReply {
    pub status: u16,
    pub body: Envelope,
}

/// The message an envelope carries, for the message-bearing variants.
pub open spec fn env_message(e: Envelope) -> Seq<char> {
    match e {
        Envelope::Success { message } => message@,
        Envelope::Notice { message } => message@,
        Envelope::Failure { message } => message@,
        _ => Seq::<char>::empty(),
    }
}

/// The note representation a data envelope carries.
pub open spec fn env_note(e: Envelope) -> RespView {
    match e {
        Envelope::Data { note } => note@,
        _ => arbitrary(),
    }
}

/// The count a listing envelope carries.
pub open spec fn env_count(e: Envelope) -> int {
    match e {
        Envelope::NoteList { count, .. } => count as int,
        _ => 0,
    }
}

/// The note representations a listing envelope carries.
pub open spec fn env_notes(e: Envelope) -> Seq<RespView> {
    match e {
        Envelope::NoteList { notes, .. } => notes@.map_values(|n: NoteModelResponse| n@),
        _ => Seq::<RespView>::empty(),
    }
}

/// The status discriminator each envelope variant is rendered with.
pub open spec fn spec_status_word(e: &Envelope) -> Seq<char> {
    match e {
        Envelope::Success { .. } => ("success")@,
        Envelope::Failure { .. } => ("error")@,
        _ => ("ok")@,
    }
}

/// The status discriminator of an envelope.
pub fn status_word(e: &Envelope) -> (r: &str)
    ensures
        r@ == spec_status_word(e),
{
    match e {
        Envelope::Success { .. } => "success",
        Envelope::Failure { .. } => "error",
        _ => "ok",
    }
}

/// The health check: a fixed success payload, no failure mode.
pub fn health_check() -> (r: Envelope)
    ensures
        r is Success,
        env_message(r) == ("API Services")@,
{
    Envelope::Success { message: String::from_str("API Services") }
}

/// The page size a listing request asks for; ten when unspecified.
pub open spec fn limit_of(f: &FilterOptions) -> int {
    match f.limit {
        Some(l) => l as int,
        None => 10,
    }
}

/// The page a listing request asks for; the first when unspecified.
pub open spec fn page_of(f: &FilterOptions) -> int {
    match f.page {
        Some(p) => p as int,
        None => 1,
    }
}

/// How many rows a listing request skips.
pub open spec fn offset_of(f: &FilterOptions) -> int {
    (page_of(f) - 1) * limit_of(f)
}

/// Resolves pagination options to a concrete limit and offset.
pub fn page_params(filter: &FilterOptions) -> (r: (usize, usize))
    requires
        page_of(filter) >= 1,
        (page_of(filter) - 1) * limit_of(filter) <= usize::MAX,
    ensures
        r.0 as int == limit_of(filter),
        r.1 as int == offset_of(filter),
{
    let limit: usize = match filter.limit {
        Some(l) => l,
        None => 10,
    };
    let page: usize = match filter.page {
        Some(p) => p,
        None => 1,
    };
    let offset: usize = (page - 1) * limit;
    (limit, offset)
}

/// Lists one page of notes in id order, with the page's row count.
/// An empty result is a valid listing, never a failure.
pub fn list_notes(store: &NoteStore, filter: &FilterOptions) -> (r: HttpReply)
    requires
        store.wf(),
        page_of(filter) >= 1,
        (page_of(filter) - 1) * limit_of(filter) <= usize::MAX,
    ensures
        r.status == 200,
        r.body is NoteList,
        env_count(r.body) == page_len(store@.len() as int, limit_of(filter), offset_of(filter)),
        env_notes(r.body).len() == env_count(r.body),
        forall|i: int| 0 <= i < env_notes(r.body).len() ==> env_notes(r.body)[i] == resp_of(
            store@[offset_of(filter) + i],
        ),
{
    let (limit, offset) = page_params(filter);
    let notes = store.page(limit, offset);
    let count = notes.len();
    HttpReply { status: 200, body: Envelope::NoteList { count, notes } }
}

/// The row a creation request stores: fresh timestamps, and always
/// unpublished. The insertion path deliberately leaves the payload's
/// publication flag unbound, as the storage statement it models does:
/// every new note starts unpublished whatever the payload said.
pub open spec fn new_note_view(id: Seq<char>, title: Seq<char>, content: Seq<char>, now: int) -> NoteView {
    NoteView { id: id, title: title, content: content, is_published: 0, created_at: now, updated_at: now }
}

/// Relies on uuid::Uuid::new_v4 together with its Display form: a
/// fresh random identifier rendered hyphenated, 36 characters long.
#[verifier::external_body]
fn fresh_note_id() -> (r: String)
    ensures
        r@.len() == 36,
{
    uuid::Uuid::new_v4().to_string()
}

/// Stores a new note under the given id: refused with a conflict when
/// the id is taken, otherwise inserted and echoed back as created.
pub fn create_note_with_id(store: &mut NoteStore, payload: &CreateNoteSchema, id: String, now: i64) -> (r: HttpReply)
    requires
        old(store).wf(),
    ensures
        final(store).wf(),
        has_id(old(store)@, id@) ==> r.status == 409 && final(store)@ == old(store)@ && r.body is Failure
            && env_message(r.body) == ("Note already exists")@,
        !has_id(old(store)@, id@) ==> r.status == 201 && has_id(final(store)@, id@) && final(store)@ == old(store)@.insert(
            insert_pos(old(store)@, id@),
            new_note_view(id@, payload.title@, payload.content@, now as int),
        ) && r.body is Data && env_note(r.body) == resp_of(
            new_note_view(id@, payload.title@, payload.content@, now as int),
        ),
{
    let ghost s0 = store@;
    let note = NoteModel {
        id: id.clone(),
        title: payload.title.clone(),
        content: payload.content.clone(),
        is_published: 0,
        created_at: now,
        updated_at: now,
    };
    let inserted = store.insert(note);
    if !inserted {
        return HttpReply {
            status: 409,
            body: Envelope::Failure { message: String::from_str("Note already exists") },
        };
    }
    proof {
        lemma_create_effect(s0, new_note_view(id@, payload.title@, payload.content@, now as int));
    }
    match store.get(id.as_str()) {
        Some(resp) => HttpReply { status: 201, body: Envelope::Data { note: resp } },
        None => {
            proof {
                assert(false);
            }
            HttpReply {
                status: 500,
                body: Envelope::Failure { message: String::from_str("Note already exists") },
            }
        },
    }
}

/// Stores a new note under a freshly drawn identifier. Whatever
/// identifier was drawn, the outcome is either a creation carrying it
/// or a conflict that leaves the table unchanged.
pub fn create_note(store: &mut NoteStore, payload: &CreateNoteSchema, now: i64) -> (r: HttpReply)
    requires
        old(store).wf(),
    ensures
        final(store).wf(),
        r.status == 201 || r.status == 409,
        (forall|i: int| 0 <= i < old(store)@.len() ==> old(store)@[i].id.len() != 36)
            ==> r.status == 201,
        r.status == 409 ==> final(store)@ == old(store)@ && r.body is Failure && env_message(
            r.body,
        ) == ("Note already exists")@,
        r.status == 201 ==> r.body is Data && env_note(r.body).id.len() == 36 && !has_id(
            old(store)@,
            env_note(r.body).id,
        ) && env_note(r.body) == resp_of(
            new_note_view(env_note(r.body).id, payload.title@, payload.content@, now as int),
        ) && final(store)@ == old(store)@.insert(
            insert_pos(old(store)@, env_note(r.body).id),
            new_note_view(env_note(r.body).id, payload.title@, payload.content@, now as int),
        ),
{
    let id = fresh_note_id();
    proof {
        if (forall|i: int| 0 <= i < store@.len() ==> store@[i].id.len() != 36) && has_id(
            store@,
            id@,
        ) {
            let w = choose|w: int| 0 <= w < store@.len() && store@[w].id == id@;
            assert(false);
        }
    }
    create_note_with_id(store, payload, id, now)
}

/// Fetches one note by id: its representation, or a not-found failure.
pub fn get_note(store: &NoteStore, id: &str) -> (r: HttpReply)
    requires
        store.wf(),
    ensures
        has_id(store@, id@) ==> r.status == 200 && r.body is Data && env_note(r.body) == resp_of(
            store@[idx_of(store@, id@)],
        ),
        !has_id(store@, id@) ==> r.status == 404 && r.body is Failure && env_message(r.body) == (
        "Note not found")@,
{
    match store.get(id) {
        Some(resp) => HttpReply { status: 200, body: Envelope::Data { note: resp } },
        None => HttpReply {
            status: 404,
            body: Envelope::Failure { message: String::from_str("Note not found") },
        },
    }
}

/// The title an update leaves: the supplied one, or the previous one.
pub open spec fn merged_title(cur: Seq<char>, p: &UpdateNoteSchema) -> Seq<char> {
    match p.title {
        Some(t) => t@,
        None => cur,
    }
}

/// The content an update leaves: the supplied one, or the previous one.
pub open spec fn merged_content(cur: Seq<char>, p: &UpdateNoteSchema) -> Seq<char> {
    match p.content {
        Some(c) => c@,
        None => cur,
    }
}

/// The stored publication flag an update leaves: the supplied value,
/// or the previous observable value, normalised to zero or one.
pub open spec fn merged_flag(cur: bool, p: &UpdateNoteSchema) -> int {
    if (match p.is_published {
        Some(b) => b,
        None => cur,
    }) {
        1
    } else {
        0
    }
}

/// The row an update request leaves behind: each supplied field
/// overwrites, each omitted field keeps the previous value, and the
/// publication flag is normalised to a definite zero or one.
pub open spec fn merged_view(cur: NoteView, p: &UpdateNoteSchema, now: int) -> NoteView {
    NoteView {
        id: cur.id,
        title: merged_title(cur.title, p),
        content: merged_content(cur.content, p),
        is_published: merged_flag(cur.is_published != 0, p),
        created_at: cur.created_at,
        updated_at: now,
    }
}

/// Resolves a partial update against the existing representation: the
/// title, content and stored publication flag the row is overwritten
/// with.
pub fn merge_update(existing: NoteModelResponse, payload: &UpdateNoteSchema) -> (r: (String, String, i8))
    ensures
        r.0@ == merged_title(existing@.title, payload),
        r.1@ == merged_content(existing@.content, payload),
        r.2 as int == merged_flag(existing@.is_published, payload),
{
    let title: String = match &payload.title {
        Some(t) => t.clone(),
        None => existing.title,
    };
    let content: String = match &payload.content {
        Some(c) => c.clone(),
        None => existing.content,
    };
    let flag: bool = match payload.is_published {
        Some(b) => b,
        None => existing.is_published,
    };
    let stored: i8 = if flag {
        1
    } else {
        0
    };
    (title, content, stored)
}

/// The message a lookup failure names the id in.
pub fn not_found_with_id(id: &str) -> (r: String)
    ensures
        r@ == ("Note with ID ")@ + id@ + (" not found")@,
{
    let mut s = String::from_str("Note with ID ");
    s.append(id);
    s.append(" not found");
    s
}

/// Updates one note in place: omitted fields keep their previous
/// value, the id and creation time never change, and a missing id is
/// a not-found failure that stores nothing.
pub fn update_note(store: &mut NoteStore, id: &str, payload: &UpdateNoteSchema, now: i64) -> (r: HttpReply)
    requires
        old(store).wf(),
    ensures
        final(store).wf(),
        !has_id(old(store)@, id@) ==> r.status == 404 && final(store)@ == old(store)@ && r.body is Failure
            && env_message(r.body) == ("Note with ID ")@ + id@ + (" not found")@,
        has_id(old(store)@, id@) ==> r.status == 200 && has_id(final(store)@, id@) && final(store)@ == old(store)@.update(
            idx_of(old(store)@, id@),
            merged_view(old(store)@[idx_of(old(store)@, id@)], payload, now as int),
        ) && r.body is Data && env_note(r.body) == resp_of(
            merged_view(old(store)@[idx_of(old(store)@, id@)], payload, now as int),
        ),
{
    let ghost s0 = store@;
    let existing = match store.get(id) {
        Some(e) => e,
        None => {
            return HttpReply {
                status: 404,
                body: Envelope::Failure { message: not_found_with_id(id) },
            };
        },
    };
    proof {
        lemma_idx_of_props(s0, id@);
    }
    let (title, content, stored_flag) = merge_update(existing, payload);
    let ra = store.update_row(id, title, content, stored_flag, now);
    if ra == 0 {
        proof {
            assert(false);
        }
        return HttpReply {
            status: 404,
            body: Envelope::Failure { message: String::from_str("Note not found") },
        };
    }
    proof {
        lemma_update_effect(s0, id@, merged_view(s0[idx_of(s0, id@)], payload, now as int));
    }
    match store.get(id) {
        Some(updated) => HttpReply { status: 200, body: Envelope::Data { note: updated } },
        None => {
            proof {
                assert(false);
            }
            HttpReply {
                status: 404,
                body: Envelope::Failure { message: String::from_str("Note not found") },
            }
        },
    }
}

/// Deletes one note by id: a confirmation when a row was hit, a
/// not-found failure otherwise.
pub fn delete_note(store: &mut NoteStore, id: &str) -> (r: HttpReply)
    requires
        old(store).wf(),
    ensures
        final(store).wf(),
        !has_id(old(store)@, id@) ==> r.status == 404 && final(store)@ == old(store)@ && r.body is Failure
            && env_message(r.body) == ("Note with ID ")@ + id@ + (" not found")@,
        has_id(old(store)@, id@) ==> r.status == 200 && !has_id(final(store)@, id@) && final(store)@ == old(store)@.remove(idx_of(old(store)@, id@)) && r.body is Notice && env_message(
            r.body,
        ) == ("Note deleted successfully")@,
{
    let ghost s0 = store@;
    let ra = store.delete(id);
    proof {
        if has_id(s0, id@) {
            lemma_delete_effect(s0, id@);
        }
    }
    if ra == 0 {
        HttpReply { status: 404, body: Envelope::Failure { message: not_found_with_id(id) } }
    } else {
        HttpReply {
            status: 200,
            body: Envelope::Notice { message: String::from_str("Note deleted successfully") },
        }
    }
}

/// Shapes a storage failure message into the standard failure reply.
pub fn db_error_reply(msg: &str) -> (r: HttpReply)
    ensures
        r.status == 500,
        r.body is Failure,
        env_message(r.body) == ("Database error: ")@ + msg@,
{
    let mut s = String::from_str("Database error: ");
    s.append(msg);
    HttpReply { status: 500, body: Envelope::Failure { message: s } }
}

/// Reads a failed insertion's message the way the service does: a
/// duplicate-key complaint means the note already exists, anything
/// else is an internal storage failure.
pub fn create_error_reply(msg: &str) -> (r: HttpReply)
    ensures
        contains_seq(msg@, ("Duplicate entry")@) ==> r.status == 409 && r.body is Failure
            && env_message(r.body) == ("Note already exists")@,
        !contains_seq(msg@, ("Duplicate entry")@) ==> r.status == 500 && r.body is Failure
            && env_message(r.body) == ("Database error: ")@ + msg@,
{
    if str_contains(msg, "Duplicate entry") {
        HttpReply {
            status: 409,
            body: Envelope::Failure { message: String::from_str("Note already exists") },
        }
    } else {
        db_error_reply(msg)
    }
}

} // verus!
