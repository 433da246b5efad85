//! The sort clause of the product list endpoint.
//!
//! Client-supplied `order_by` and `order` strings are validated against a
//! closed allow-list and become enum values; the SQL identifier is then taken
//! from the enum alone, so no client text ever reaches a SQL statement.

use crate::model::str_eq;
use vstd::prelude::*;

verus! {

/// The columns a product listing may be sorted by.
#[derive(Clone, Copy, PartialEq, Eq, Structural, Debug)]
pub enum SortColumn {
    Id,
    CategoryId,
    Code,
    Stock,
    Price,
    Name,
}

/// Ascending or descending.
#[derive(Clone, Copy, PartialEq, Eq, Structural, Debug)]
pub enum SortOrder {
    Asc,
    Desc,
}

/// The column a client-supplied `order_by` string names, if it is on the
/// allow-list.
pub open spec fn spec_parse_order_by(s: Seq<char>) -> Option<SortColumn> {
    if s == "id"@ {
        Some(SortColumn::Id)
    } else if s == "category_id"@ {
        Some(SortColumn::CategoryId)
    } else if s == "code"@ {
        Some(SortColumn::Code)
    } else if s == "stock"@ {
        Some(SortColumn::Stock)
    } else if s == "price"@ {
        Some(SortColumn::Price)
    } else if s == "name"@ {
        Some(SortColumn::Name)
    } else {
        None
    }
}

/// The direction a client-supplied `order` string names, if it is valid.
pub open spec fn spec_parse_order(s: Seq<char>) -> Option<SortOrder> {
    if s == "asc"@ {
        Some(SortOrder::Asc)
    } else if s == "desc"@ {
        Some(SortOrder::Desc)
    } else {
        None
    }
}

/// Validates an `order_by` string against the allow-list; anything not on it
/// is `None`, never passed onward.
pub fn parse_order_by(s: &str) -> (r: Option<SortColumn>)
    ensures
        r == spec_parse_order_by(s@),
{
    if str_eq(s, "id") {
        Some(SortColumn::Id)
    } else if str_eq(s, "category_id") {
        Some(SortColumn::CategoryId)
    } else if str_eq(s, "code") {
        Some(SortColumn::Code)
    } else if str_eq(s, "stock") {
        Some(SortColumn::Stock)
    } else if str_eq(s, "price") {
        Some(SortColumn::Price)
    } else if str_eq(s, "name") {
        Some(SortColumn::Name)
    } else {
        None
    }
}

/// Validates an `order` string: `asc` or `desc`, nothing else.
pub fn parse_order(s: &str) -> (r: Option<SortOrder>)
    ensures
        r == spec_parse_order(s@),
{
    if str_eq(s, "asc") {
        Some(SortOrder::Asc)
    } else if str_eq(s, "desc") {
        Some(SortOrder::Desc)
    } else {
        None
    }
}

/// The SQL identifier of an allow-listed column: always one of six fixed
/// literals, whatever the client sent.
pub fn column_ident(c: &SortColumn) -> (r: &'static str)
    ensures
        spec_parse_order_by(r@) == Some(*c),
{
    proof {
        reveal_strlit("id");
        reveal_strlit("category_id");
        reveal_strlit("code");
        reveal_strlit("stock");
        reveal_strlit("price");
        reveal_strlit("name");
        assert("category_id"@.len() != "id"@.len());
        assert("code"@.len() != "id"@.len());
        assert("code"@.len() != "category_id"@.len());
        assert("stock"@.len() != "id"@.len());
        assert("stock"@.len() != "category_id"@.len());
        assert("stock"@.len() != "code"@.len());
        assert("price"@.len() != "id"@.len());
        assert("price"@.len() != "category_id"@.len());
        assert("price"@.len() != "code"@.len());
        assert("price"@[0] != "stock"@[0]);
        assert("name"@.len() != "id"@.len());
        assert("name"@.len() != "category_id"@.len());
        assert("name"@[0] != "code"@[0]);
        assert("name"@.len() != "stock"@.len());
        assert("name"@.len() != "price"@.len());
    }
    match c {
        SortColumn::Id => "id",
        SortColumn::CategoryId => "category_id",
        SortColumn::Code => "code",
        SortColumn::Stock => "stock",
        SortColumn::Price => "price",
        SortColumn::Name => "name",
    }
}

/// The SQL keyword of a direction: one of two fixed literals.
pub fn order_ident(o: &SortOrder) -> (r: &'static str)
    ensures
        spec_parse_order(r@) == Some(*o),
{
    proof {
        reveal_strlit("asc");
        reveal_strlit("desc");
        assert("desc"@.len() != "asc"@.len());
    }
    match o {
        SortOrder::Asc => "asc",
        SortOrder::Desc => "desc",
    }
}

} // verus!
