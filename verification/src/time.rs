//! The wall clock, and response mapping against it.

use crate::model::ProductModel;
use crate::model::ProductModelResponse;
use crate::model::opt_view;
use crate::model::to_product_response;
use vstd::prelude::*;

verus! {

/// Relies on chrono's `Utc::now` for the current wall-clock time as Unix
/// seconds. The value depends on when the call runs, so nothing is promised
/// about it.
#[verifier::external_body]
pub fn current_timestamp() -> i64 {
    chrono::Utc::now().timestamp()
}

/// Maps a stored product row to its response shape, reading the clock once
/// for any missing timestamp: whatever instant the clock returns, every
/// stored field is carried over unchanged, and two missing timestamps get
/// the same instant.
pub fn to_product_response_now(p: &ProductModel) -> (r: ProductModelResponse)
    ensures
        r.id == p.id,
        r.category_id == p.category_id,
        r.name@ == p.name@,
        opt_view(r.description) == Some(
            match opt_view(p.description) {
                Some(d) => d,
                None => Seq::<char>::empty(),
            },
        ),
        r.price == p.price,
        r.code == p.code,
        r.stock == p.stock,
        opt_view(r.image) == Some(
            match opt_view(p.image) {
                Some(im) => im,
                None => Seq::<char>::empty(),
            },
        ),
        p.created_at matches Some(t) ==> r.created_at == t,
        p.updated_at matches Some(t) ==> r.updated_at == t,
        p.created_at is None && p.updated_at is None ==> r.created_at == r.updated_at,
{
    let now = current_timestamp();
    to_product_response(p, now)
}

} // verus!
