//! A verified model of the notes table: rows with unique string ids,
//! kept in ascending id order, with the row-level operations the
//! service issues against it (insert, point lookup, page scan,
//! in-place update, delete).

use vstd::prelude::*;
use vstd::pervasive::VecAdditionalExecFns;

use crate::model::{NoteModel, NoteModelResponse, NoteView, resp_of, to_note_response};
use crate::strutil::{lex_lt, lemma_lex_asym, lemma_lex_irrefl, lemma_lex_total, lemma_lex_trans, str_eq, str_lt};

verus! {

/// Rows stand in strictly ascending id order; strictness makes ids unique.
pub open spec fn sorted_by_id(s: Seq<NoteView>) -> bool {
    forall|i: int, j: int| 0 <= i < j < s.len() ==> lex_lt(s[i].id, s[j].id)
}

/// Some row carries the given id.
pub open spec fn has_id(s: Seq<NoteView>, id: Seq<char>) -> bool {
    exists|i: int| 0 <= i < s.len() && s[i].id == id
}

/// Index of the first row carrying the given id.
pub open spec fn idx_of(s: Seq<NoteView>, id: Seq<char>) -> int
    decreases s.len(),
{
    if s.len() == 0 {
        0
    } else if s[0].id == id {
        0
    } else {
        1 + idx_of(s.drop_first(), id)
    }
}

/// Index of the first row whose id does not sort below the given id:
/// where a fresh row with that id belongs.
pub open spec fn insert_pos(s: Seq<NoteView>, id: Seq<char>) -> int
    decreases s.len(),
{
    if s.len() == 0 {
        0
    } else if !lex_lt(s[0].id, id) {
        0
    } else {
        1 + insert_pos(s.drop_first(), id)
    }
}

pub proof fn lemma_idx_of_props(s: Seq<NoteView>, id: Seq<char>)
    requires
        has_id(s, id),
    ensures
        0 <= idx_of(s, id) < s.len(),
        s[idx_of(s, id)].id == id,
        forall|j: int| 0 <= j < idx_of(s, id) ==> s[j].id != id,
    decreases s.len(),
{
    if s.len() == 0 {
        assert(false);
    } else if s[0].id == id {
    } else {
        let w = choose|i: int| 0 <= i < s.len() && s[i].id == id;
        assert(s.drop_first()[w - 1] == s[w]);
        assert(has_id(s.drop_first(), id));
        lemma_idx_of_props(s.drop_first(), id);
        let k = idx_of(s, id);
        assert(s[k] == s.drop_first()[k - 1]);
        assert forall|j: int| 0 <= j < k implies s[j].id != id by {
            if j > 0 {
                assert(s[j] == s.drop_first()[j - 1]);
            }
        }
    }
}

pub proof fn lemma_idx_of_is(s: Seq<NoteView>, id: Seq<char>, i: int)
    requires
        0 <= i < s.len(),
        s[i].id == id,
        forall|j: int| 0 <= j < i ==> s[j].id != id,
    ensures
        idx_of(s, id) == i,
    decreases s.len(),
{
    if s[0].id == id {
        assert(i == 0);
    } else {
        assert(i > 0);
        assert(s.drop_first()[i - 1] == s[i]);
        assert forall|j: int| 0 <= j < i - 1 implies s.drop_first()[j].id != id by {
            assert(s.drop_first()[j] == s[j + 1]);
        }
        lemma_idx_of_is(s.drop_first(), id, i - 1);
    }
}

/// Distinct positions of a sorted table carry distinct ids.
pub proof fn lemma_sorted_unique(s: Seq<NoteView>, i: int, j: int)
    requires
        sorted_by_id(s),
        0 <= i < j < s.len(),
    ensures
        s[i].id != s[j].id,
{
    assert(lex_lt(s[i].id, s[j].id));
    lemma_lex_asym(s[i].id, s[j].id);
}

pub proof fn lemma_insert_pos_props(s: Seq<NoteView>, id: Seq<char>)
    ensures
        0 <= insert_pos(s, id) <= s.len(),
        forall|j: int| 0 <= j < insert_pos(s, id) ==> lex_lt(s[j].id, id),
        insert_pos(s, id) < s.len() ==> !lex_lt(s[insert_pos(s, id)].id, id),
    decreases s.len(),
{
    if s.len() == 0 {
    } else if !lex_lt(s[0].id, id) {
    } else {
        lemma_insert_pos_props(s.drop_first(), id);
        let k = insert_pos(s, id);
        assert forall|j: int| 0 <= j < k implies lex_lt(s[j].id, id) by {
            if j > 0 {
                assert(s[j] == s.drop_first()[j - 1]);
            }
        }
        if k < s.len() {
            assert(s[k] == s.drop_first()[k - 1]);
        }
    }
}

pub proof fn lemma_insert_pos_unique(s: Seq<NoteView>, id: Seq<char>, k: int)
    requires
        0 <= k <= s.len(),
        forall|j: int| 0 <= j < k ==> lex_lt(s[j].id, id),
        k < s.len() ==> !lex_lt(s[k].id, id),
    ensures
        insert_pos(s, id) == k,
    decreases s.len(),
{
    if s.len() == 0 {
    } else if !lex_lt(s[0].id, id) {
        assert(k == 0);
    } else {
        assert(k >= 1);
        assert forall|j: int| 0 <= j < k - 1 implies lex_lt(s.drop_first()[j].id, id) by {
            assert(s.drop_first()[j] == s[j + 1]);
        }
        if k - 1 < s.drop_first().len() {
            assert(s.drop_first()[k - 1] == s[k]);
        }
        lemma_insert_pos_unique(s.drop_first(), id, k - 1);
    }
}

/// In a sorted table an id is present exactly when the row at its
/// insertion point carries it.
pub proof fn lemma_has_at_insert_pos(s: Seq<NoteView>, id: Seq<char>)
    requires
        sorted_by_id(s),
    ensures
        has_id(s, id) <==> (insert_pos(s, id) < s.len() && s[insert_pos(s, id)].id == id),
{
    let k = insert_pos(s, id);
    lemma_insert_pos_props(s, id);
    if has_id(s, id) {
        let i = choose|i: int| 0 <= i < s.len() && s[i].id == id;
        if i < k {
            assert(lex_lt(s[i].id, id));
            lemma_lex_irrefl(id);
            assert(false);
        }
        if i > k {
            assert(lex_lt(s[k].id, s[i].id));
            assert(false);
        }
        assert(i == k);
    }
}

/// Inserting a fresh row at its insertion point keeps the table sorted
/// and places the row where a lookup finds it.
pub proof fn lemma_create_effect(s: Seq<NoteView>, n: NoteView)
    requires
        sorted_by_id(s),
        !has_id(s, n.id),
    ensures
        sorted_by_id(s.insert(insert_pos(s, n.id), n)),
        s.insert(insert_pos(s, n.id), n).len() == s.len() + 1,
        has_id(s.insert(insert_pos(s, n.id), n), n.id),
        idx_of(s.insert(insert_pos(s, n.id), n), n.id) == insert_pos(s, n.id),
        s.insert(insert_pos(s, n.id), n)[insert_pos(s, n.id)] == n,
{
    let k = insert_pos(s, n.id);
    lemma_insert_pos_props(s, n.id);
    s.insert_ensures(k, n);
    let t = s.insert(k, n);
    if k < s.len() {
        assert(s[k].id != n.id);
        lemma_lex_total(n.id, s[k].id);
        assert(lex_lt(n.id, s[k].id));
    }
    assert forall|i: int, j: int| 0 <= i < j < t.len() implies lex_lt(t[i].id, t[j].id) by {
        if i < k && j < k {
            assert(t[i] == s[i] && t[j] == s[j]);
        } else if i < k && j == k {
            assert(t[i] == s[i]);
            assert(lex_lt(s[i].id, n.id));
        } else if i < k && j > k {
            assert(t[i] == s[i] && t[j] == s[j - 1]);
        } else if i == k && j > k {
            assert(t[j] == s[j - 1]);
            if j - 1 == k {
                assert(lex_lt(n.id, s[k].id));
            } else {
                assert(lex_lt(s[k].id, s[j - 1].id));
                lemma_lex_trans(n.id, s[k].id, s[j - 1].id);
            }
        } else {
            assert(t[i] == s[i - 1] && t[j] == s[j - 1]);
        }
    }
    assert(t[k].id == n.id);
    assert forall|j: int| 0 <= j < k implies t[j].id != n.id by {
        assert(t[j] == s[j]);
        assert(lex_lt(s[j].id, n.id));
        lemma_lex_asym(s[j].id, n.id);
    }
    lemma_idx_of_is(t, n.id, k);
}

/// Removing the row that carries an id keeps the table sorted and
/// leaves no row with that id behind.
pub proof fn lemma_delete_effect(s: Seq<NoteView>, id: Seq<char>)
    requires
        sorted_by_id(s),
        has_id(s, id),
    ensures
        0 <= idx_of(s, id) < s.len(),
        sorted_by_id(s.remove(idx_of(s, id))),
        s.remove(idx_of(s, id)).len() == s.len() - 1,
        !has_id(s.remove(idx_of(s, id)), id),
{
    lemma_idx_of_props(s, id);
    let i = idx_of(s, id);
    s.remove_ensures(i);
    let t = s.remove(i);
    assert forall|p: int, q: int| 0 <= p < q < t.len() implies lex_lt(t[p].id, t[q].id) by {
        if p < i && q < i {
            assert(t[p] == s[p] && t[q] == s[q]);
        } else if p < i && q >= i {
            assert(t[p] == s[p] && t[q] == s[q + 1]);
        } else {
            assert(t[p] == s[p + 1] && t[q] == s[q + 1]);
        }
    }
    if has_id(t, id) {
        let j = choose|j: int| 0 <= j < t.len() && t[j].id == id;
        if j < i {
            assert(t[j] == s[j]);
            assert(false);
        } else {
            assert(t[j] == s[j + 1]);
            lemma_sorted_unique(s, i, j + 1);
            assert(false);
        }
    }
}

/// Replacing a row with one carrying the same id keeps the table
/// sorted and keeps the row where a lookup finds it.
pub proof fn lemma_update_effect(s: Seq<NoteView>, id: Seq<char>, n: NoteView)
    requires
        sorted_by_id(s),
        has_id(s, id),
        n.id == id,
    ensures
        0 <= idx_of(s, id) < s.len(),
        sorted_by_id(s.update(idx_of(s, id), n)),
        s.update(idx_of(s, id), n).len() == s.len(),
        has_id(s.update(idx_of(s, id), n), id),
        idx_of(s.update(idx_of(s, id), n), id) == idx_of(s, id),
        s.update(idx_of(s, id), n)[idx_of(s, id)] == n,
{
    lemma_idx_of_props(s, id);
    let i = idx_of(s, id);
    let t = s.update(i, n);
    assert(s[i].id == id);
    assert forall|p: int, q: int| 0 <= p < q < t.len() implies lex_lt(t[p].id, t[q].id) by {
        assert(lex_lt(s[p].id, s[q].id));
        assert(t[p].id == s[p].id && t[q].id == s[q].id);
    }
    assert(t[i].id == id);
    assert forall|j: int| 0 <= j < i implies t[j].id != id by {
        assert(t[j] == s[j]);
    }
    lemma_idx_of_is(t, id, i);
}

/// How many rows a page scan with the given limit and offset yields.
pub open spec fn page_len(n: int, limit: int, offset: int) -> int {
    if offset >= n {
        0
    } else if offset + limit > n {
        n - offset
    } else {
        limit
    }
}

/// The notes table: rows in strictly ascending id order.
pub struct NoteStore {
    notes: Vec<NoteModel>,
}

impl View for NoteStore {
    type V = Seq<NoteView>;

    closed spec fn view(&self) -> Seq<NoteView> {
        self.notes@.map_values(|n: NoteModel| n@)
    }
}

impl NoteStore {
    /// The table invariant: every operation preserves it.
    pub open spec fn wf(&self) -> bool {
        sorted_by_id(self@)
    }

    /// An empty table.
    pub fn new() -> (s: Self)
        ensures
            s.wf(),
            s@ == Seq::<NoteView>::empty(),
    {
        let s = NoteStore { notes: Vec::new() };
        proof {
            assert(s@ =~= Seq::<NoteView>::empty());
        }
        s
    }

    /// How many rows the table holds.
    pub fn len(&self) -> (n: usize)
        ensures
            n == self@.len(),
    {
        self.notes.len()
    }

    /// First position whose id does not sort below `id`.
    fn insert_position(&self, id: &str) -> (pos: usize)
        requires
            self.wf(),
        ensures
            pos <= self@.len(),
            pos as int == insert_pos(self@, id@),
    {
        let n: usize = self.notes.len();
        let mut i: usize = 0;
        loop
            invariant
                self.wf(),
                n == self@.len(),
                i <= n,
                forall|j: int| 0 <= j < i ==> lex_lt(self@[j].id, id@),
            decreases n - i,
        {
            if i == n {
                proof {
                    lemma_insert_pos_unique(self@, id@, i as int);
                }
                return i;
            }
            if !str_lt(self.notes[i].id.as_str(), id) {
                proof {
                    lemma_insert_pos_unique(self@, id@, i as int);
                }
                return i;
            }
            i = i + 1;
        }
    }

    /// Index of the row carrying `id`, if the table has one.
    fn find_index(&self, id: &str) -> (r: Option<usize>)
        requires
            self.wf(),
        ensures
            match r {
                Some(i) => has_id(self@, id@) && i < self@.len() && i as int == idx_of(self@, id@),
                None => !has_id(self@, id@),
            },
    {
        let n: usize = self.notes.len();
        let mut i: usize = 0;
        loop
            invariant
                self.wf(),
                n == self@.len(),
                i <= n,
                forall|j: int| 0 <= j < i ==> self@[j].id != id@,
            decreases n - i,
        {
            if i == n {
                proof {
                    if has_id(self@, id@) {
                        let w = choose|w: int| 0 <= w < self@.len() && self@[w].id == id@;
                        assert(false);
                    }
                }
                return None;
            }
            if str_eq(self.notes[i].id.as_str(), id) {
                proof {
                    lemma_idx_of_is(self@, id@, i as int);
                }
                return Some(i);
            }
            i = i + 1;
        }
    }

    /// Point lookup: the representation of the row carrying `id`.
    pub fn get(&self, id: &str) -> (r: Option<NoteModelResponse>)
        requires
            self.wf(),
        ensures
            match r {
                Some(resp) => has_id(self@, id@) && resp@ == resp_of(self@[idx_of(self@, id@)]),
                None => !has_id(self@, id@),
            },
    {
        match self.find_index(id) {
            Some(i) => Some(to_note_response(&self.notes[i])),
            None => None,
        }
    }

    /// Inserts a fresh row at its place in id order; refuses a
    /// duplicate id and leaves the table unchanged then.
    pub fn insert(&mut self, note: NoteModel) -> (r: bool)
        requires
            old(self).wf(),
        ensures
            final(self).wf(),
            has_id(old(self)@, note@.id) ==> r == false && final(self)@ == old(self)@,
            !has_id(old(self)@, note@.id) ==> r == true && final(self)@ == old(self)@.insert(
                insert_pos(old(self)@, note@.id),
                note@,
            ),
    {
        let ghost s0 = self@;
        let ghost m0 = self.notes@;
        let pos: usize = self.insert_position(note.id.as_str());
        proof {
            lemma_has_at_insert_pos(s0, note@.id);
        }
        if pos < self.notes.len() {
            if str_eq(self.notes[pos].id.as_str(), note.id.as_str()) {
                return false;
            }
        }
        proof {
            lemma_create_effect(s0, note@);
        }
        self.notes.insert(pos, note);
        proof {
            m0.insert_ensures(pos as int, note);
            s0.insert_ensures(pos as int, note@);
            assert(self@ =~= s0.insert(pos as int, note@));
        }
        true
    }

    /// One page of rows in id order: up to `limit` representations
    /// starting at `offset`.
    pub fn page(&self, limit: usize, offset: usize) -> (r: Vec<NoteModelResponse>)
        requires
            self.wf(),
        ensures
            r@.len() == page_len(self@.len() as int, limit as int, offset as int),
            forall|i: int| 0 <= i < r@.len() ==> r@[i]@ == resp_of(self@[offset + i]),
    {
        let n: usize = self.notes.len();
        let mut out: Vec<NoteModelResponse> = Vec::new();
        if offset >= n {
            return out;
        }
        let end: usize = if limit > n - offset {
            n
        } else {
            offset + limit
        };
        let mut i: usize = offset;
        loop
            invariant
                offset <= i <= end <= n,
                n == self@.len(),
                end - offset == page_len(n as int, limit as int, offset as int),
                out@.len() == i - offset,
                forall|j: int| 0 <= j < out@.len() ==> out@[j]@ == resp_of(self@[offset + j]),
            decreases end - i,
        {
            if i == end {
                return out;
            }
            out.push(to_note_response(&self.notes[i]));
            i = i + 1;
        }
    }

    /// Overwrites title, content and publication flag of the row
    /// carrying `id`, stamping `now` as its update time; reports how
    /// many rows were hit (one when the id is present, none otherwise).
    pub fn update_row(&mut self, id: &str, title: String, content: String, is_published: i8, now: i64) -> (ra: usize)
        requires
            old(self).wf(),
        ensures
            final(self).wf(),
            !has_id(old(self)@, id@) ==> ra == 0 && final(self)@ == old(self)@,
            has_id(old(self)@, id@) ==> ra == 1 && final(self)@ == old(self)@.update(
                idx_of(old(self)@, id@),
                (NoteView {
                    id: id@,
                    title: title@,
                    content: content@,
                    is_published: is_published as int,
                    created_at: old(self)@[idx_of(old(self)@, id@)].created_at,
                    updated_at: now as int,
                }),
            ),
    {
        let ghost s0 = self@;
        match self.find_index(id) {
            None => 0,
            Some(i) => {
                let created_at: i64 = self.notes[i].created_at;
                let row = NoteModel {
                    id: self.notes[i].id.clone(),
                    title: title,
                    content: content,
                    is_published: is_published,
                    created_at: created_at,
                    updated_at: now,
                };
                proof {
                    lemma_idx_of_props(s0, id@);
                    lemma_update_effect(s0, id@, row@);
                }
                self.notes.set(i, row);
                proof {
                    assert(self@ =~= s0.update(i as int, (NoteView {
                        id: id@,
                        title: title@,
                        content: content@,
                        is_published: is_published as int,
                        created_at: s0[i as int].created_at,
                        updated_at: now as int,
                    })));
                }
                1
            },
        }
    }

    /// Deletes the row carrying `id`; reports how many rows were hit
    /// (one when the id is present, none otherwise).
    pub fn delete(&mut self, id: &str) -> (ra: usize)
        requires
            old(self).wf(),
        ensures
            final(self).wf(),
            !has_id(old(self)@, id@) ==> ra == 0 && final(self)@ == old(self)@,
            has_id(old(self)@, id@) ==> ra == 1 && final(self)@ == old(self)@.remove(idx_of(old(self)@, id@)),
    {
        let ghost s0 = self@;
        let ghost m0 = self.notes@;
        match self.find_index(id) {
            None => 0,
            Some(i) => {
                proof {
                    lemma_delete_effect(s0, id@);
                }
                self.notes.remove(i);
                proof {
                    m0.remove_ensures(i as int);
                    s0.remove_ensures(i as int);
                    assert(self@ =~= s0.remove(i as int));
                }
                1
            },
        }
    }
}

} // verus!
