//! Properties that hold across the endpoint operations, proved once and for
//! all over the same spec functions the operations' contracts use.

use crate::model::NoteV;
use crate::model::ProductV;
use crate::model::note_response_of;
use crate::note_store::new_note_v;
use crate::note_store::note_contains;
use crate::note_store::note_rows_wf;
use crate::note_store::spec_get_note;
use crate::order::SortColumn;
use crate::order::spec_parse_order_by;
use crate::product_store::new_product_v;
use crate::product_store::product_rows_wf;
use crate::product_store::spec_get;
use crate::product_store::spec_page;
use crate::schema::CreateNoteV;
use crate::schema::CreateProductV;
use crate::schema::UpdateProductV;
use crate::schema::resolved_product;
use vstd::prelude::*;

verus! {

/// A page is never longer than its limit, and away from the end of the data
/// it is exactly the rows `[offset, offset + limit)`.
pub proof fn law_page_within_limit<T>(s: Seq<T>, limit: nat, offset: nat)
    ensures
        spec_page(s, limit, offset).len() <= limit,
        offset + limit <= s.len() ==> spec_page(s, limit, offset) == s.subrange(
            offset as int,
            (offset + limit) as int,
        ),
        offset >= s.len() ==> spec_page(s, limit, offset).len() == 0,
{
}

/// Creating a note under a fresh id and fetching that id yields the note
/// back: same title, same content, and a note created without
/// `is_published` comes back unpublished.
pub proof fn law_note_create_then_get(s: Seq<NoteV>, b: CreateNoteV, id: Seq<char>, now: i64)
    requires
        note_rows_wf(s),
        !note_contains(s, id),
    ensures
        note_rows_wf(s.push(new_note_v(b, id, now))),
        spec_get_note(s.push(new_note_v(b, id, now)), id) == Some(new_note_v(b, id, now)),
        new_note_v(b, id, now).title == b.title,
        new_note_v(b, id, now).content == b.content,
        b.is_published is None ==> note_response_of(new_note_v(b, id, now)).is_published == false,
{
    let s2 = s.push(new_note_v(b, id, now));
    assert(s2[s.len() as int].id == id);
    assert forall|i: int, j: int| 0 <= i < j < s2.len() implies s2[i].id != s2[j].id by {
        if j < s.len() {
            assert(s[i].id != s[j].id);
        } else {
            assert(s2[i] == s[i]);
        }
    }
    crate::note_store::lemma_note_idx_unique(s2, id, s.len() as int);
}

/// Creating a product under a fresh id and fetching that id yields exactly
/// the stored row.
pub proof fn law_product_create_then_get(s: Seq<ProductV>, b: CreateProductV, id: u64, now: i64)
    requires
        product_rows_wf(s),
        forall|i: int| 0 <= i < s.len() ==> (#[trigger] s[i]).id < id,
        b.price matches Some(p) ==> p.wf(),
    ensures
        spec_get(s.push(new_product_v(b, id, now)), id) == Some(new_product_v(b, id, now)),
{
    let s2 = s.push(new_product_v(b, id, now));
    assert(s2[s.len() as int].id == id);
    assert forall|i: int, j: int| 0 <= i < j < s2.len() implies s2[i].id < s2[j].id by {
        if j < s.len() {
            assert(s[i].id < s[j].id);
        } else {
            assert(s2[i] == s[i]);
        }
    }
    assert forall|i: int| 0 <= i < s2.len() implies (#[trigger] s2[i]).price.wf() by {
        if i < s.len() {
            assert(s[i].price.wf());
        }
    }
    crate::product_store::lemma_idx_unique(s2, id, s.len() as int);
}

/// A partial update that supplies only `name` changes only `name`: every
/// other column of the resolved row keeps its stored value.
pub proof fn law_update_name_only(cur: ProductV, patch: UpdateProductV)
    requires
        patch.name is Some,
        patch.description is None,
        patch.price is None,
        patch.category_id is None,
        patch.code is None,
        patch.stock is None,
    ensures
        resolved_product(cur, patch).name == patch.name->Some_0,
        resolved_product(cur, patch).id == cur.id,
        resolved_product(cur, patch).category_id == cur.category_id,
        resolved_product(cur, patch).description == cur.description,
        resolved_product(cur, patch).price == cur.price,
        resolved_product(cur, patch).code == cur.code,
        resolved_product(cur, patch).stock == cur.stock,
        resolved_product(cur, patch).image == cur.image,
        resolved_product(cur, patch).created_at == cur.created_at,
        resolved_product(cur, patch).updated_at == cur.updated_at,
{
}

/// A wholly empty patch resolves to the stored row itself.
pub proof fn law_empty_patch_is_identity(cur: ProductV, patch: UpdateProductV)
    requires
        patch.name is None,
        patch.description is None,
        patch.price is None,
        patch.category_id is None,
        patch.code is None,
        patch.stock is None,
    ensures
        resolved_product(cur, patch) == cur,
{
    assert(resolved_product(cur, patch) =~= cur);
}

/// Only the six allow-listed column names ever produce a sort column;
/// every other string is rejected before any SQL text is built.
pub proof fn law_order_by_allowlisted(s: Seq<char>)
    ensures
        spec_parse_order_by(s) is Some ==> (s == "id"@ || s == "category_id"@ || s == "code"@ || s
            == "stock"@ || s == "price"@ || s == "name"@),
        spec_parse_order_by(s) is None ==> !(s == "id"@ || s == "category_id"@ || s == "code"@ || s
            == "stock"@ || s == "price"@ || s == "name"@),
{
}

/// The sort column is what its identifier parses back to; together with
/// `column_ident`'s contract this pins the emitted identifier to the
/// allow-list.
pub proof fn law_column_round_trip(c: SortColumn)
    ensures
        spec_parse_order_by(
            match c {
                SortColumn::Id => "id"@,
                SortColumn::CategoryId => "category_id"@,
                SortColumn::Code => "code"@,
                SortColumn::Stock => "stock"@,
                SortColumn::Price => "price"@,
                SortColumn::Name => "name"@,
            },
        ) == Some(c),
{
    reveal_strlit("id");
    reveal_strlit("category_id");
    reveal_strlit("code");
    reveal_strlit("stock");
    reveal_strlit("price");
    reveal_strlit("name");
    assert("category_id"@.len() != "id"@.len());
    assert("code"@.len() != "id"@.len());
    assert("code"@.len() != "category_id"@.len());
    assert("stock"@.len() != "id"@.len());
    assert("stock"@.len() != "category_id"@.len());
    assert("stock"@.len() != "code"@.len());
    assert("price"@.len() != "id"@.len());
    assert("price"@.len() != "category_id"@.len());
    assert("price"@.len() != "code"@.len());
    assert("price"@[0] != "stock"@[0]);
    assert("name"@.len() != "id"@.len());
    assert("name"@.len() != "category_id"@.len());
    assert("name"@[0] != "code"@[0]);
    assert("name"@.len() != "stock"@.len());
    assert("name"@.len() != "price"@.len());
}

} // verus!
