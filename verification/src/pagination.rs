//! Query-string filter options and the page/limit arithmetic of the list
//! endpoints.

use vstd::prelude::*;

verus! {

/// The default number of rows a list endpoint returns when the query string
/// names no limit.
pub const DEFAULT_LIMIT: usize = 10;

/// Optional query parameters of the list endpoints, as plain values after the
/// query string has been decoded. `page` is 1-based; `order` and `order_by`
/// are the raw strings still to be validated.
pub struct FilterOptions {
    pub page: Option<usize>,
    pub limit: Option<usize>,
    pub order: Option<String>,
    pub order_by: Option<String>,
}

/// A resolved page: how many rows to return and how many to skip.
pub struct Pagination {
    pub limit: usize,
    pub offset: usize,
}

/// The page number actually used: absent defaults to 1, and a client-supplied
/// 0 is clamped to 1 so that the zero-based offset cannot underflow.
pub open spec fn effective_page(page: Option<usize>) -> usize {
    match page {
        Some(p) => if p == 0 { 1usize } else { p },
        None => 1usize,
    }
}

/// The row limit actually used: absent defaults to `DEFAULT_LIMIT`.
pub open spec fn effective_limit(limit: Option<usize>) -> usize {
    match limit {
        Some(l) => l,
        None => DEFAULT_LIMIT,
    }
}

impl FilterOptions {
    /// Resolves `page` and `limit` to a limit and a zero-based offset with
    /// `offset == (page - 1) * limit`, clamping a page of 0 to 1 and
    /// saturating the offset at `usize::MAX` instead of wrapping.
    pub fn resolve_pagination(&self) -> (r: Pagination)
        ensures
            r.limit == effective_limit(self.limit),
            (effective_page(self.page) - 1) * r.limit <= usize::MAX
                ==> r.offset == (effective_page(self.page) - 1) * r.limit,
            (effective_page(self.page) - 1) * r.limit > usize::MAX
                ==> r.offset == usize::MAX,
    {
        let limit = match self.limit {
            Some(l) => l,
            None => DEFAULT_LIMIT,
        };
        let page = match self.page {
            Some(p) => if p == 0 { 1 } else { p },
            None => 1,
        };
        let offset = match (page - 1).checked_mul(limit) {
            Some(o) => o,
            None => usize::MAX,
        };
        Pagination { limit, offset }
    }
}

} // verus!
