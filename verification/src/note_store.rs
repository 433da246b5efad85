//! The notes table and its five endpoint operations.
//!
//! Note ids are identifier strings generated outside the store (one fresh
//! random identifier per create request); the store enforces their
//! uniqueness and answers a duplicate with a conflict, exactly as the create
//! endpoint does. Rows keep creation order, and the list endpoint pages over
//! that order.

use crate::api::ApiError;
use crate::model::NoteModel;
use crate::model::NoteModelResponse;
use crate::model::NoteResponseV;
use crate::model::NoteV;
use crate::model::copy_note;
use crate::model::note_response_of;
use crate::model::str_eq;
use crate::model::to_note_response;
use crate::pagination::FilterOptions;
use crate::pagination::effective_limit;
use crate::schema::CreateNoteSchema;
use crate::schema::CreateNoteV;
use crate::schema::UpdateNoteSchema;
use crate::schema::apply_note_patch;
use crate::schema::resolved_note;
use vstd::prelude::*;

verus! {

/// The ghost values of a note row vector.
pub open spec fn note_views_of(s: Seq<NoteModel>) -> Seq<NoteV> {
    s.map_values(|n: NoteModel| n@)
}

/// Pairwise distinct note ids.
pub open spec fn note_rows_wf(s: Seq<NoteV>) -> bool {
    forall|i: int, j: int| 0 <= i < j < s.len() ==> s[i].id != s[j].id
}

/// Whether some row has the given id.
pub open spec fn note_contains(s: Seq<NoteV>, id: Seq<char>) -> bool {
    exists|i: int| 0 <= i < s.len() && s[i].id == id
}

/// The position of the row with the given id (unique under
/// [`note_rows_wf`]).
pub open spec fn note_idx_of(s: Seq<NoteV>, id: Seq<char>) -> int {
    choose|i: int| 0 <= i < s.len() && s[i].id == id
}

/// The row with the given id, if any.
pub open spec fn spec_get_note(s: Seq<NoteV>, id: Seq<char>) -> Option<NoteV> {
    if note_contains(s, id) {
        Some(s[note_idx_of(s, id)])
    } else {
        None
    }
}

/// Under distinct ids, two positions holding the same id are the same.
pub proof fn lemma_note_idx_unique(s: Seq<NoteV>, id: Seq<char>, i: int)
    requires
        note_rows_wf(s),
        0 <= i < s.len(),
        s[i].id == id,
    ensures
        note_idx_of(s, id) == i,
        note_contains(s, id),
{
    let j = note_idx_of(s, id);
    if j < i {
        assert(s[j].id != s[i].id);
    } else if i < j {
        assert(s[i].id != s[j].id);
    }
}

/// The row the create endpoint stores: fields from the request, an omitted
/// `is_published` stored as 0, both timestamps set to `now`.
pub open spec fn new_note_v(b: CreateNoteV, id: Seq<char>, now: i64) -> NoteV {
    NoteV {
        id: id,
        title: b.title,
        content: b.content,
        is_published: match b.is_published {
            Some(p) => if p {
                1
            } else {
                0
            },
            None => 0,
        },
        created_at: now,
        updated_at: now,
    }
}

/// The response shapes of a note row sequence.
pub open spec fn note_responses_of(s: Seq<NoteV>) -> Seq<NoteResponseV> {
    s.map_values(|n: NoteV| note_response_of(n))
}

/// The ghost values of a note response vector.
pub open spec fn note_resp_views(s: Seq<NoteModelResponse>) -> Seq<NoteResponseV> {
    s.map_values(|n: NoteModelResponse| n@)
}

/// The notes table: rows in creation order, ids pairwise distinct.
pub struct NoteTable {
    pub rows: Vec<NoteModel>,
}

impl View for NoteTable {
    type V = Seq<NoteV>;

    open spec fn view(&self) -> Seq<NoteV> {
        note_views_of(self.rows@)
    }
}

impl NoteTable {
    /// The table invariant.
    pub open spec fn wf(&self) -> bool {
        note_rows_wf(self@)
    }

    /// An empty table.
    pub fn new() -> (r: NoteTable)
        ensures
            r.wf(),
            r@ == Seq::<NoteV>::empty(),
    {
        let r = NoteTable { rows: Vec::new() };
        proof {
            assert(r@ =~= Seq::<NoteV>::empty());
        }
        r
    }

    /// The number of stored rows.
    pub fn len(&self) -> (n: usize)
        ensures
            n == self@.len(),
    {
        self.rows.len()
    }

    /// The position of the row with the given id.
    fn find(&self, id: &str) -> (r: Option<usize>)
        requires
            self.wf(),
        ensures
            match r {
                Some(i) => i < self@.len() && self@[i as int].id == id@ && i as int == note_idx_of(
                    self@,
                    id@,
                ) && note_contains(self@, id@),
                None => !note_contains(self@, id@),
            },
    {
        let mut i: usize = 0;
        while i < self.rows.len()
            invariant
                0 <= i <= self@.len(),
                self.wf(),
                forall|j: int| 0 <= j < i ==> (#[trigger] self@[j]).id != id@,
            decreases self@.len() - i,
        {
            if str_eq(self.rows[i].id.as_str(), id) {
                proof {
                    lemma_note_idx_unique(self@, id@, i as int);
                }
                return Some(i);
            }
            i = i + 1;
        }
        None
    }

    /// The list endpoint: the requested page of the rows in creation order,
    /// at most `limit` of them. Sort parameters do not apply to notes and
    /// are ignored.
    pub fn list_notes(&self, opts: &FilterOptions) -> (r: Vec<NoteModelResponse>)
        requires
            self.wf(),
        ensures
            r@.len() <= effective_limit(opts.limit),
            note_resp_views(r@) == note_responses_of(
                crate::product_store::spec_page(
                    self@,
                    effective_limit(opts.limit) as nat,
                    ((crate::pagination::effective_page(opts.page) - 1) * effective_limit(
                        opts.limit,
                    )) as nat,
                ),
            ),
    {
        let pag = opts.resolve_pagination();
        let total = self.rows.len();
        let lo = if pag.offset > total {
            total
        } else {
            pag.offset
        };
        let remaining = total - lo;
        let take_n = if pag.limit < remaining {
            pag.limit
        } else {
            remaining
        };
        let mut items: Vec<NoteModelResponse> = Vec::new();
        let mut k: usize = 0;
        while k < take_n
            invariant
                0 <= k <= take_n,
                total == self@.len(),
                lo <= total,
                take_n <= total - lo,
                items@.len() == k,
                forall|m: int| 0 <= m < k ==> (#[trigger] items@[m])@ == note_response_of(
                    self@[lo + m],
                ),
            decreases take_n - k,
        {
            items.push(to_note_response(&self.rows[lo + k]));
            k = k + 1;
        }
        proof {
            assert(note_resp_views(items@) =~= note_responses_of(
                crate::product_store::spec_page(
                    self@,
                    effective_limit(opts.limit) as nat,
                    ((crate::pagination::effective_page(opts.page) - 1) * effective_limit(
                        opts.limit,
                    )) as nat,
                ),
            ));
        }
        items
    }

    /// The create endpoint: stores the row under the supplied fresh id, or
    /// answers `Conflict` exactly when the id is already taken, changing
    /// nothing.
    pub fn create_note(&mut self, body: &CreateNoteSchema, id: &str, now: i64) -> (r: Result<
        NoteModelResponse,
        ApiError,
    >)
        requires
            old(self).wf(),
        ensures
            final(self).wf(),
            r is Ok <==> !note_contains(old(self)@, id@),
            note_contains(old(self)@, id@) ==> final(self)@ == old(self)@ && r == Err::<
                NoteModelResponse,
                ApiError,
            >(ApiError::Conflict),
            !note_contains(old(self)@, id@) ==> {
                &&& final(self)@ == old(self)@.push(new_note_v(body@, id@, now))
                &&& r matches Ok(resp) && resp@ == note_response_of(new_note_v(body@, id@, now))
            },
    {
        match self.find(id) {
            Some(_) => Err(ApiError::Conflict),
            None => {
                let row = NoteModel {
                    id: id.to_owned(),
                    title: body.title.clone(),
                    content: body.content.clone(),
                    is_published: match body.is_published {
                        Some(p) => if p {
                            1
                        } else {
                            0
                        },
                        None => 0,
                    },
                    created_at: now,
                    updated_at: now,
                };
                let resp = to_note_response(&row);
                proof {
                    assert(row@ =~= new_note_v(body@, id@, now));
                }
                self.rows.push(row);
                proof {
                    assert(self@ =~= old(self)@.push(new_note_v(body@, id@, now)));
                }
                Ok(resp)
            },
        }
    }

    /// The get endpoint: the row's response shape, or `NotFound` exactly
    /// when no row has the id.
    pub fn get_note(&self, id: &str) -> (r: Result<NoteModelResponse, ApiError>)
        requires
            self.wf(),
        ensures
            r is Ok <==> note_contains(self@, id@),
            r matches Ok(resp) ==> resp@ == note_response_of(spec_get_note(self@, id@)->Some_0),
            r matches Err(e) ==> e == ApiError::NotFound,
    {
        match self.find(id) {
            Some(i) => Ok(to_note_response(&self.rows[i])),
            None => Err(ApiError::NotFound),
        }
    }

    /// The update endpoint: resolves the partial payload against the stored
    /// row, refreshes `updated_at`, writes the row back, and returns its
    /// response shape; `NotFound` exactly when no row has the id.
    pub fn update_note(&mut self, id: &str, patch: &UpdateNoteSchema, now: i64) -> (r: Result<
        NoteModelResponse,
        ApiError,
    >)
        requires
            old(self).wf(),
        ensures
            final(self).wf(),
            r is Ok <==> note_contains(old(self)@, id@),
            !note_contains(old(self)@, id@) ==> final(self)@ == old(self)@ && r == Err::<
                NoteModelResponse,
                ApiError,
            >(ApiError::NotFound),
            note_contains(old(self)@, id@) ==> {
                let i = note_idx_of(old(self)@, id@);
                let resolved = resolved_note(old(self)@[i], patch@, now);
                &&& final(self)@ == old(self)@.update(i, resolved)
                &&& r matches Ok(resp) && resp@ == note_response_of(resolved)
            },
    {
        let i = match self.find(id) {
            Some(i) => i,
            None => {
                return Err(ApiError::NotFound);
            },
        };
        let cur = copy_note(&self.rows[i]);
        let updated = apply_note_patch(&cur, patch, now);
        let resp = to_note_response(&updated);
        let ghost prev = self@;
        self.rows.remove(i);
        self.rows.insert(i, updated);
        proof {
            assert(self@ =~= prev.update(i as int, resolved_note(prev[i as int], patch@, now)));
            assert forall|a: int, b: int| 0 <= a < b < self@.len() implies self@[a].id
                != self@[b].id by {
                assert(prev[a].id != prev[b].id);
            }
        }
        Ok(resp)
    }

    /// The delete endpoint: removes the row; `NotFound` exactly when no row
    /// has the id, and then nothing changes.
    pub fn delete_note(&mut self, id: &str) -> (r: Result<(), ApiError>)
        requires
            old(self).wf(),
        ensures
            final(self).wf(),
            r is Ok <==> note_contains(old(self)@, id@),
            !note_contains(old(self)@, id@) ==> final(self)@ == old(self)@ && r == Err::<
                (),
                ApiError,
            >(ApiError::NotFound),
            note_contains(old(self)@, id@) ==> final(self)@ == old(self)@.remove(
                note_idx_of(old(self)@, id@),
            ),
    {
        let i = match self.find(id) {
            Some(i) => i,
            None => {
                return Err(ApiError::NotFound);
            },
        };
        let ghost prev = self@;
        self.rows.remove(i);
        proof {
            assert(self@ =~= prev.remove(i as int));
            assert forall|a: int, b: int| 0 <= a < b < self@.len() implies self@[a].id
                != self@[b].id by {
                if b < i as int {
                    assert(prev[a].id != prev[b].id);
                } else if a < i as int {
                    assert(prev[a].id != prev[b + 1].id);
                } else {
                    assert(prev[a + 1].id != prev[b + 1].id);
                }
            }
        }
        Ok(())
    }
}

} // verus!
