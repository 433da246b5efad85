//! The products table and its five endpoint operations.
//!
//! The table is the crate's model of the `products` storage: rows kept in
//! ascending `id` order, ids assigned once by a counter and never reused
//! while the table lives. Each operation carries the exact contract of the
//! corresponding endpoint.

use crate::api::ApiError;
use crate::decimal::Decimal;
use crate::model::ProductModel;
use crate::model::ProductModelResponse;
use crate::model::ProductResponseV;
use crate::model::ProductV;
use crate::model::copy_product;
use crate::model::product_response_of;
use crate::model::to_product_response;
use crate::order::SortColumn;
use crate::order::SortOrder;
use crate::order::parse_order;
use crate::order::parse_order_by;
use crate::order::spec_parse_order;
use crate::order::spec_parse_order_by;
use crate::pagination::FilterOptions;
use crate::pagination::effective_limit;
use crate::schema::CreateProductSchema;
use crate::schema::CreateProductV;
use crate::schema::UpdateProductSchema;
use crate::schema::apply_product_patch;
use crate::schema::resolved_product;
use crate::sort::sort_products;
use crate::sort::spec_sort;
use crate::sort::views_of;
use vstd::prelude::*;

verus! {

/// Rows in strictly ascending `id` order (so ids are unique), each with a
/// well-formed price.
pub open spec fn product_rows_wf(s: Seq<ProductV>) -> bool {
    &&& forall|i: int, j: int| 0 <= i < j < s.len() ==> s[i].id < s[j].id
    &&& forall|i: int| 0 <= i < s.len() ==> (#[trigger] s[i]).price.wf()
}

/// Whether some row has the given id.
pub open spec fn table_contains(s: Seq<ProductV>, id: u64) -> bool {
    exists|i: int| 0 <= i < s.len() && s[i].id == id
}

/// The position of the row with the given id (unique under
/// [`product_rows_wf`]).
pub open spec fn idx_of(s: Seq<ProductV>, id: u64) -> int {
    choose|i: int| 0 <= i < s.len() && s[i].id == id
}

/// The row with the given id, if any.
pub open spec fn spec_get(s: Seq<ProductV>, id: u64) -> Option<ProductV> {
    if table_contains(s, id) {
        Some(s[idx_of(s, id)])
    } else {
        None
    }
}

/// Under unique ids, two positions holding the same id are the same.
pub proof fn lemma_idx_unique(s: Seq<ProductV>, id: u64, i: int)
    requires
        product_rows_wf(s),
        0 <= i < s.len(),
        s[i].id == id,
    ensures
        idx_of(s, id) == i,
        table_contains(s, id),
{
    let j = idx_of(s, id);
    if j < i {
        assert(s[j].id < s[i].id);
    } else if i < j {
        assert(s[i].id < s[j].id);
    }
}

/// The row the create endpoint stores: fields from the request, text
/// defaults applied, an omitted price stored as zero, both timestamps set to
/// `now`, no image.
pub open spec fn new_product_v(b: CreateProductV, id: u64, now: i64) -> ProductV {
    ProductV {
        id: id,
        category_id: b.category_id,
        name: b.name,
        description: Some(b.description),
        price: match b.price {
            Some(p) => p,
            None => Decimal { units: 0, scale: 0 },
        },
        code: b.code as i64,
        stock: b.stock as i64,
        image: None,
        created_at: Some(now),
        updated_at: Some(now),
    }
}

/// The sort column the list endpoint uses: the default when the query names
/// none, otherwise only an allow-listed name.
pub open spec fn col_of_filter(f: FilterOptions) -> Option<SortColumn> {
    match f.order_by {
        None => Some(SortColumn::Id),
        Some(s) => spec_parse_order_by(s@),
    }
}

/// The sort direction the list endpoint uses.
pub open spec fn ord_of_filter(f: FilterOptions) -> Option<SortOrder> {
    match f.order {
        None => Some(SortOrder::Asc),
        Some(s) => spec_parse_order(s@),
    }
}

/// The page `[offset, offset + limit)` of a sequence, clamped to its end.
pub open spec fn spec_page<T>(s: Seq<T>, limit: nat, offset: nat) -> Seq<T> {
    let lo: int = if offset > s.len() {
        s.len() as int
    } else {
        offset as int
    };
    let hi: int = if offset + limit > s.len() {
        s.len() as int
    } else {
        (offset + limit) as int
    };
    s.subrange(lo, hi)
}

/// The response shapes of a row sequence.
pub open spec fn responses_of(s: Seq<ProductV>, now: i64) -> Seq<ProductResponseV> {
    s.map_values(|p: ProductV| product_response_of(p, now))
}

/// The ghost values of a response vector.
pub open spec fn resp_views(s: Seq<ProductModelResponse>) -> Seq<ProductResponseV> {
    s.map_values(|p: ProductModelResponse| p@)
}

/// The products table: rows in ascending `id` order and the next id the
/// store will assign.
pub struct ProductTable {
    pub rows: Vec<ProductModel>,
    pub next_id: u64,
}

impl View for ProductTable {
    type V = Seq<ProductV>;

    open spec fn view(&self) -> Seq<ProductV> {
        views_of(self.rows@)
    }
}

impl ProductTable {
    /// The table invariant: well-formed rows, every id below `next_id`.
    pub open spec fn wf(&self) -> bool {
        &&& product_rows_wf(self@)
        &&& forall|i: int| 0 <= i < self@.len() ==> (#[trigger] self@[i]).id < self.next_id
        &&& self.next_id >= 1
    }

    /// An empty table; ids start at 1, as a fresh auto-increment column does.
    pub fn new() -> (r: ProductTable)
        ensures
            r.wf(),
            r@ == Seq::<ProductV>::empty(),
            r.next_id == 1,
    {
        let r = ProductTable { rows: Vec::new(), next_id: 1 };
        proof {
            assert(r@ =~= Seq::<ProductV>::empty());
        }
        r
    }

    /// The number of stored rows.
    pub fn len(&self) -> (n: usize)
        ensures
            n == self@.len(),
    {
        self.rows.len()
    }

    /// The position of the row with the given id.
    fn find(&self, id: u64) -> (r: Option<usize>)
        requires
            self.wf(),
        ensures
            match r {
                Some(i) => i < self@.len() && self@[i as int].id == id && i as int == idx_of(
                    self@,
                    id,
                ) && table_contains(self@, id),
                None => !table_contains(self@, id),
            },
    {
        let mut i: usize = 0;
        while i < self.rows.len()
            invariant
                0 <= i <= self@.len(),
                self.wf(),
                forall|j: int| 0 <= j < i ==> (#[trigger] self@[j]).id != id,
            decreases self@.len() - i,
        {
            if self.rows[i].id == id {
                proof {
                    lemma_idx_unique(self@, id, i as int);
                }
                return Some(i);
            }
            i = i + 1;
        }
        None
    }

    /// The list endpoint: validates the sort parameters against the
    /// allow-list (anything unrecognized is rejected, never interpolated),
    /// resolves the page, and returns that page of the rows in listing
    /// order. At most `limit` rows come back.
    pub fn list_products(&self, opts: &FilterOptions, now: i64) -> (r: Result<
        Vec<ProductModelResponse>,
        ApiError,
    >)
        requires
            self.wf(),
        ensures
            r is Err <==> (col_of_filter(*opts) is None || ord_of_filter(*opts) is None),
            r matches Err(e) ==> e == ApiError::Validation,
            r matches Ok(items) ==> {
                let col = col_of_filter(*opts)->Some_0;
                let ord = ord_of_filter(*opts)->Some_0;
                let pag = crate::pagination::effective_page(opts.page);
                &&& items@.len() <= effective_limit(opts.limit)
                &&& resp_views(items@) == responses_of(
                    spec_page(
                        spec_sort(self@, col, ord),
                        effective_limit(opts.limit) as nat,
                        ((pag - 1) * effective_limit(opts.limit)) as nat,
                    ),
                    now,
                )
            },
    {
        let col: SortColumn = match &opts.order_by {
            None => SortColumn::Id,
            Some(s) => match parse_order_by(s.as_str()) {
                Some(c) => c,
                None => {
                    return Err(ApiError::Validation);
                },
            },
        };
        let ord: SortOrder = match &opts.order {
            None => SortOrder::Asc,
            Some(s) => match parse_order(s.as_str()) {
                Some(o) => o,
                None => {
                    return Err(ApiError::Validation);
                },
            },
        };
        let pag = opts.resolve_pagination();
        let mut rows_copy: Vec<ProductModel> = Vec::new();
        let mut i: usize = 0;
        while i < self.rows.len()
            invariant
                0 <= i <= self.rows@.len(),
                rows_copy@.len() == i,
                forall|k: int| 0 <= k < i ==> (#[trigger] rows_copy@[k])@ == self.rows@[k]@,
            decreases self.rows@.len() - i,
        {
            rows_copy.push(copy_product(&self.rows[i]));
            i = i + 1;
        }
        proof {
            assert(views_of(rows_copy@) =~= self@);
            assert forall|k: int| 0 <= k < rows_copy@.len() implies (
            #[trigger] rows_copy@[k]@).price.wf() by {
                assert(views_of(rows_copy@)[k] == rows_copy@[k]@);
                assert(self@[k].price.wf());
            }
        }
        let sorted = sort_products(rows_copy, &col, &ord);
        let ghost sv = spec_sort(self@, col, ord);
        let total = sorted.len();
        let lo = if pag.offset > total {
            total
        } else {
            pag.offset
        };
        let remaining = total - lo;
        let take_n = if pag.limit < remaining {
            pag.limit
        } else {
            remaining
        };
        let mut items: Vec<ProductModelResponse> = Vec::new();
        let mut k: usize = 0;
        while k < take_n
            invariant
                0 <= k <= take_n,
                total == sorted@.len(),
                lo <= total,
                take_n <= total - lo,
                views_of(sorted@) == sv,
                items@.len() == k,
                forall|m: int| 0 <= m < k ==> (#[trigger] items@[m])@ == product_response_of(
                    sv[lo + m],
                    now,
                ),
            decreases take_n - k,
        {
            items.push(to_product_response(&sorted[lo + k], now));
            proof {
                assert(sorted@[lo + k as int]@ == sv[lo + k as int]);
            }
            k = k + 1;
        }
        proof {
            crate::sort::lemma_spec_sort(self@, col, ord);
            let limit_n = effective_limit(opts.limit) as nat;
            let page = crate::pagination::effective_page(opts.page);
            let off_n = ((page - 1) * effective_limit(opts.limit)) as nat;
            assert(resp_views(items@) =~= responses_of(spec_page(sv, limit_n, off_n), now));
        }
        Ok(items)
    }

    /// The create endpoint: assigns the next id, stores the row with both
    /// timestamps set to `now`, and returns the stored row's response shape.
    pub fn create_product(&mut self, body: &CreateProductSchema, now: i64) -> (r:
        ProductModelResponse)
        requires
            old(self).wf(),
            old(self).next_id < u64::MAX,
            body.price matches Some(p) ==> p.wf(),
        ensures
            final(self).wf(),
            final(self)@ == old(self)@.push(new_product_v(body@, old(self).next_id, now)),
            final(self).next_id == old(self).next_id + 1,
            r@ == product_response_of(new_product_v(body@, old(self).next_id, now), now),
    {
        let id = self.next_id;
        let row = ProductModel {
            id,
            category_id: body.category_id,
            name: body.name.clone(),
            description: Some(body.description.clone()),
            price: match body.price {
                Some(p) => p,
                None => Decimal { units: 0, scale: 0 },
            },
            code: body.code as i64,
            stock: body.stock as i64,
            image: None,
            created_at: Some(now),
            updated_at: Some(now),
        };
        let resp = to_product_response(&row, now);
        proof {
            assert(row@ =~= new_product_v(body@, id, now));
        }
        self.rows.push(row);
        self.next_id = id + 1;
        proof {
            assert(self@ =~= old(self)@.push(new_product_v(body@, id, now)));
        }
        resp
    }

    /// The get endpoint: the row's response shape, or `NotFound` exactly
    /// when no row has the id.
    pub fn get_product(&self, id: u64, now: i64) -> (r: Result<ProductModelResponse, ApiError>)
        requires
            self.wf(),
        ensures
            r is Ok <==> table_contains(self@, id),
            r matches Ok(resp) ==> resp@ == product_response_of(spec_get(self@, id)->Some_0, now),
            r matches Err(e) ==> e == ApiError::NotFound,
    {
        match self.find(id) {
            Some(i) => Ok(to_product_response(&self.rows[i], now)),
            None => Err(ApiError::NotFound),
        }
    }

    /// The update endpoint: resolves the partial payload against the stored
    /// row (supplied fields change, omitted fields keep their value), writes
    /// the resolved row back, and returns its response shape; `NotFound`
    /// exactly when no row has the id, and then nothing changes.
    pub fn update_product(&mut self, id: u64, patch: &UpdateProductSchema, now: i64) -> (r: Result<
        ProductModelResponse,
        ApiError,
    >)
        requires
            old(self).wf(),
            patch.price matches Some(p) ==> p.wf(),
        ensures
            final(self).wf(),
            final(self).next_id == old(self).next_id,
            r is Ok <==> table_contains(old(self)@, id),
            !table_contains(old(self)@, id) ==> final(self)@ == old(self)@ && r == Err::<
                ProductModelResponse,
                ApiError,
            >(ApiError::NotFound),
            table_contains(old(self)@, id) ==> {
                let i = idx_of(old(self)@, id);
                let resolved = resolved_product(old(self)@[i], patch@);
                &&& final(self)@ == old(self)@.update(i, resolved)
                &&& r matches Ok(resp) && resp@ == product_response_of(resolved, now)
            },
    {
        let i = match self.find(id) {
            Some(i) => i,
            None => {
                return Err(ApiError::NotFound);
            },
        };
        let cur = copy_product(&self.rows[i]);
        let updated = apply_product_patch(&cur, patch);
        let resp = to_product_response(&updated, now);
        let ghost prev = self@;
        self.rows.remove(i);
        self.rows.insert(i, updated);
        proof {
            assert(self@ =~= prev.update(i as int, resolved_product(prev[i as int], patch@)));
            assert forall|a: int, b: int| 0 <= a < b < self@.len() implies self@[a].id
                < self@[b].id by {
                assert(prev[a].id < prev[b].id);
            }
        }
        Ok(resp)
    }

    /// The delete endpoint: removes the row; `NotFound` exactly when no row
    /// has the id, and then nothing changes.
    pub fn delete_product(&mut self, id: u64) -> (r: Result<(), ApiError>)
        requires
            old(self).wf(),
        ensures
            final(self).wf(),
            final(self).next_id == old(self).next_id,
            r is Ok <==> table_contains(old(self)@, id),
            !table_contains(old(self)@, id) ==> final(self)@ == old(self)@ && r == Err::<
                (),
                ApiError,
            >(ApiError::NotFound),
            table_contains(old(self)@, id) ==> final(self)@ == old(self)@.remove(
                idx_of(old(self)@, id),
            ),
    {
        let i = match self.find(id) {
            Some(i) => i,
            None => {
                return Err(ApiError::NotFound);
            },
        };
        let ghost prev = self@;
        self.rows.remove(i);
        proof {
            assert(self@ =~= prev.remove(i as int));
            assert forall|a: int, b: int| 0 <= a < b < self@.len() implies self@[a].id
                < self@[b].id by {
                if b < i as int {
                    assert(prev[a].id < prev[b].id);
                } else if a < i as int {
                    assert(prev[a].id < prev[b + 1].id);
                } else {
                    assert(prev[a + 1].id < prev[b + 1].id);
                }
            }
            assert forall|k: int| 0 <= k < self@.len() implies (#[trigger] self@[k]).price.wf()
                && self@[k].id < self.next_id by {
                if k < i as int {
                    assert(prev[k].price.wf());
                } else {
                    assert(prev[k + 1].price.wf());
                }
            }
        }
        Ok(())
    }
}

} // verus!
