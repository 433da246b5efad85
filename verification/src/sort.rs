//! Deterministic ordering of product rows.
//!
//! Numeric columns compare by an integer sort key, the name column
//! lexicographically, ties are broken by `id`, and the listing order is
//! defined by the recursive insertion sort [`spec_sort`], which the
//! executable sort reproduces exactly.

use crate::decimal::MAX_SCALE;
use crate::decimal::pow10;
use crate::decimal::pow10_u64;
use crate::lex::lemma_lex_trans;
use crate::lex::lemma_lex_trichotomy;
use crate::lex::lex_lt;
use crate::model::ProductModel;
use crate::model::ProductV;
use crate::order::SortColumn;
use crate::order::SortOrder;
use vstd::multiset::Multiset;
use vstd::prelude::*;

verus! {

/// The integer key a numeric column assigns to a row; a price is compared
/// by its value in fixed-point units of `10^-MAX_SCALE`. The name column is
/// not compared through a key (see [`col_lt`]), so its arm is a constant.
pub open spec fn sort_key(col: SortColumn, p: ProductV) -> int {
    match col {
        SortColumn::Id => p.id as int,
        SortColumn::CategoryId => p.category_id as int,
        SortColumn::Code => p.code as int,
        SortColumn::Stock => p.stock as int,
        SortColumn::Price => p.price.key(),
        SortColumn::Name => 0,
    }
}

/// Whether `a` strictly precedes `b` on the column: numerically for the
/// numeric columns, lexicographically for the name.
pub open spec fn col_lt(col: SortColumn, a: ProductV, b: ProductV) -> bool {
    match col {
        SortColumn::Name => lex_lt(a.name, b.name),
        _ => sort_key(col, a) < sort_key(col, b),
    }
}

/// Whether `a` and `b` rank equal on the column.
pub open spec fn col_eq(col: SortColumn, a: ProductV, b: ProductV) -> bool {
    match col {
        SortColumn::Name => a.name == b.name,
        _ => sort_key(col, a) == sort_key(col, b),
    }
}

/// The listing order: by the column in the requested direction, ties broken
/// by ascending `id`.
pub open spec fn product_le(col: SortColumn, ord: SortOrder, a: ProductV, b: ProductV) -> bool {
    match ord {
        SortOrder::Asc => col_lt(col, a, b) || (col_eq(col, a, b) && a.id <= b.id),
        SortOrder::Desc => col_lt(col, b, a) || (col_eq(col, a, b) && a.id <= b.id),
    }
}

/// The listing order is total: any two rows are ordered one way or the
/// other.
pub proof fn lemma_product_le_total(col: SortColumn, ord: SortOrder, a: ProductV, b: ProductV)
    ensures
        product_le(col, ord, a, b) || product_le(col, ord, b, a),
{
    if col is Name {
        lemma_lex_trichotomy(a.name, b.name);
    }
}

/// The listing order is transitive.
pub proof fn lemma_product_le_trans(
    col: SortColumn,
    ord: SortOrder,
    a: ProductV,
    b: ProductV,
    c: ProductV,
)
    requires
        product_le(col, ord, a, b),
        product_le(col, ord, b, c),
    ensures
        product_le(col, ord, a, c),
{
    if col is Name {
        if lex_lt(a.name, b.name) && lex_lt(b.name, c.name) {
            lemma_lex_trans(a.name, b.name, c.name);
        }
        if lex_lt(c.name, b.name) && lex_lt(b.name, a.name) {
            lemma_lex_trans(c.name, b.name, a.name);
        }
    }
}

/// Whether a row sequence is in listing order.
pub open spec fn sorted_products(s: Seq<ProductV>, col: SortColumn, ord: SortOrder) -> bool {
    forall|i: int, j: int| 0 <= i < j < s.len() ==> product_le(col, ord, s[i], s[j])
}

/// Insertion of one row into a sequence in listing order: it lands before
/// the first row that does not precede it.
pub open spec fn insert_sorted(
    s: Seq<ProductV>,
    x: ProductV,
    col: SortColumn,
    ord: SortOrder,
) -> Seq<ProductV>
    decreases s.len(),
{
    if s.len() == 0 {
        seq![x]
    } else if product_le(col, ord, s[0], x) {
        seq![s[0]] + insert_sorted(s.drop_first(), x, col, ord)
    } else {
        seq![x] + s
    }
}

/// The listing order of a whole row sequence, defined by repeated insertion.
pub open spec fn spec_sort(s: Seq<ProductV>, col: SortColumn, ord: SortOrder) -> Seq<ProductV>
    decreases s.len(),
{
    if s.len() == 0 {
        Seq::<ProductV>::empty()
    } else {
        insert_sorted(spec_sort(s.drop_last(), col, ord), s.last(), col, ord)
    }
}

/// Inserting keeps listing order, adds exactly the new row, and grows the
/// length by one.
pub proof fn lemma_insert_sorted(s: Seq<ProductV>, x: ProductV, col: SortColumn, ord: SortOrder)
    requires
        sorted_products(s, col, ord),
    ensures
        sorted_products(insert_sorted(s, x, col, ord), col, ord),
        insert_sorted(s, x, col, ord).to_multiset() == s.to_multiset().insert(x),
        insert_sorted(s, x, col, ord).len() == s.len() + 1,
    decreases s.len(),
{
    broadcast use vstd::seq_lib::group_to_multiset_ensures;

    let out = insert_sorted(s, x, col, ord);
    if s.len() == 0 {
        assert(out =~= Seq::<ProductV>::empty().push(x));
        assert(Seq::<ProductV>::empty().to_multiset() =~= Multiset::<ProductV>::empty());
        assert(out.to_multiset() =~= s.to_multiset().insert(x));
    } else if product_le(col, ord, s[0], x) {
        let tail = s.drop_first();
        assert(sorted_products(tail, col, ord)) by {
            assert(forall|i: int, j: int|
                0 <= i < j < tail.len() ==> product_le(col, ord, tail[i], tail[j])) by {
                assert(forall|i: int| 0 <= i < tail.len() ==> tail[i] == s[i + 1]);
            }
        }
        lemma_insert_sorted(tail, x, col, ord);
        let rec = insert_sorted(tail, x, col, ord);
        assert(out =~= seq![s[0]] + rec);
        // `s[0]` precedes everything inserted behind it: each element of the
        // recursive result is either `x` or a later element of `s`.
        assert forall|j: int| 0 <= j < rec.len() implies product_le(col, ord, s[0], rec[j]) by {
            assert(rec.to_multiset().contains(rec[j]));
            if rec[j] == x {
            } else {
                assert(tail.to_multiset().contains(rec[j]));
                let k = choose|k: int| 0 <= k < tail.len() && tail[k] == rec[j];
                assert(tail[k] == s[k + 1]);
            }
        }
        assert(sorted_products(out, col, ord)) by {
            assert(forall|i: int, j: int|
                1 <= i < j < out.len() ==> product_le(col, ord, out[i], out[j])) by {
                assert(forall|i: int| 1 <= i < out.len() ==> out[i] == rec[i - 1]);
            }
        }
        assert(out.to_multiset() =~= s.to_multiset().insert(x)) by {
            assert(seq![s[0]] + rec =~= rec.insert(0, s[0]));
            assert(s =~= tail.insert(0, s[0]));
        }
    } else {
        assert(out =~= seq![x] + s);
        assert forall|j: int| 0 <= j < s.len() implies product_le(col, ord, x, s[j]) by {
            lemma_product_le_total(col, ord, s[0], x);
            if j > 0 {
                assert(product_le(col, ord, s[0], s[j]));
                lemma_product_le_trans(col, ord, x, s[0], s[j]);
            }
        }
        assert(forall|i: int| 1 <= i < out.len() ==> out[i] == s[i - 1]);
        assert(out.to_multiset() =~= s.to_multiset().insert(x)) by {
            assert(seq![x] + s =~= s.insert(0, x));
        }
    }
}

/// The listing order of a sequence is sorted, keeps every row, and keeps the
/// length.
pub proof fn lemma_spec_sort(s: Seq<ProductV>, col: SortColumn, ord: SortOrder)
    ensures
        sorted_products(spec_sort(s, col, ord), col, ord),
        spec_sort(s, col, ord).to_multiset() == s.to_multiset(),
        spec_sort(s, col, ord).len() == s.len(),
    decreases s.len(),
{
    broadcast use vstd::seq_lib::group_to_multiset_ensures;

    if s.len() == 0 {
    } else {
        lemma_spec_sort(s.drop_last(), col, ord);
        lemma_insert_sorted(spec_sort(s.drop_last(), col, ord), s.last(), col, ord);
        assert(s =~= s.drop_last().push(s.last()));
        assert(s.drop_last().push(s.last()).to_multiset() =~= s.drop_last().to_multiset().insert(
            s.last(),
        ));
    }
}

/// The ghost values of a row vector.
pub open spec fn views_of(s: Seq<ProductModel>) -> Seq<ProductV> {
    s.map_values(|p: ProductModel| p@)
}

/// Whether a row precedes another in listing order, decided executably.
pub fn product_le_exec(col: &SortColumn, ord: &SortOrder, a: &ProductModel, b: &ProductModel) -> (r:
    bool)
    requires
        a@.price.wf(),
        b@.price.wf(),
    ensures
        r == product_le(*col, *ord, a@, b@),
{
    let (lt_ab, eq_ab, lt_ba): (bool, bool, bool) = match col {
        SortColumn::Id => (a.id < b.id, a.id == b.id, b.id < a.id),
        SortColumn::CategoryId => (
            a.category_id < b.category_id,
            a.category_id == b.category_id,
            b.category_id < a.category_id,
        ),
        SortColumn::Code => (a.code < b.code, a.code == b.code, b.code < a.code),
        SortColumn::Stock => (a.stock < b.stock, a.stock == b.stock, b.stock < a.stock),
        SortColumn::Price => {
            let ka = price_key_u128(&a.price);
            let kb = price_key_u128(&b.price);
            (ka < kb, ka == kb, kb < ka)
        },
        SortColumn::Name => (
            crate::lex::str_lt(a.name.as_str(), b.name.as_str()),
            crate::model::str_eq(a.name.as_str(), b.name.as_str()),
            crate::lex::str_lt(b.name.as_str(), a.name.as_str()),
        ),
    };
    match ord {
        SortOrder::Asc => lt_ab || (eq_ab && a.id <= b.id),
        SortOrder::Desc => lt_ba || (eq_ab && a.id <= b.id),
    }
}

/// The fixed-point price key, computed without overflow: the unscaled value
/// is below `2^64` and the scale factor at most `10^MAX_SCALE`.
fn price_key_u128(d: &crate::decimal::Decimal) -> (r: u128)
    requires
        d.wf(),
    ensures
        r == d.key(),
{
    let p = pow10_u64(MAX_SCALE - d.scale);
    proof {
        crate::decimal::lemma_pow10_le(((MAX_SCALE - d.scale) as u8) as nat, MAX_SCALE as nat);
        reveal_with_fuel(pow10, 13);
        assert((d.units as nat) * (p as nat) <= (u64::MAX as nat) * (pow10(MAX_SCALE as nat)))
            by (nonlinear_arith)
            requires
                d.units as nat <= u64::MAX as nat,
                p as nat <= pow10(MAX_SCALE as nat),
        ;
    }
    (d.units as u128) * (p as u128)
}

/// Sorts product rows into listing order; the result is exactly
/// [`spec_sort`] of the input's ghost values.
pub fn sort_products(v: Vec<ProductModel>, col: &SortColumn, ord: &SortOrder) -> (r: Vec<
    ProductModel,
>)
    requires
        forall|k: int| 0 <= k < v@.len() ==> (#[trigger] v@[k]@).price.wf(),
    ensures
        views_of(r@) == spec_sort(views_of(v@), *col, *ord),
        r@.len() == v@.len(),
{
    let ghost orig = views_of(v@);
    let mut out: Vec<ProductModel> = Vec::new();
    let mut i: usize = 0;
    proof {
        assert(views_of(v@.take(0)) =~= Seq::<ProductV>::empty());
    }
    while i < v.len()
        invariant
            0 <= i <= v@.len(),
            forall|k: int| 0 <= k < v@.len() ==> (#[trigger] v@[k]@).price.wf(),
            forall|k: int| 0 <= k < out@.len() ==> (#[trigger] out@[k]@).price.wf(),
            views_of(out@) == spec_sort(views_of(v@.take(i as int)), *col, *ord),
            out@.len() == i,
        decreases v@.len() - i,
    {
        let x = crate::model::copy_product(&v[i]);
        proof {
            lemma_spec_sort(views_of(v@.take(i as int)), *col, *ord);
        }
        // Scan for the first element that does not precede `x`.
        let mut pos: usize = 0;
        while pos < out.len() && product_le_exec(col, ord, &out[pos], &x)
            invariant
                0 <= pos <= out@.len(),
                x@ == v@[i as int]@,
                x@.price.wf(),
                forall|k: int| 0 <= k < out@.len() ==> (#[trigger] out@[k]@).price.wf(),
                forall|k: int| 0 <= k < pos ==> product_le(*col, *ord, (#[trigger] out@[k])@, x@),
            decreases out@.len() - pos,
        {
            pos = pos + 1;
        }
        let ghost prev = out@;
        proof {
            assert(forall|k: int| 0 <= k < pos ==> product_le(
                *col,
                *ord,
                #[trigger] views_of(prev)[k],
                x@,
            ));
            lemma_insert_position(views_of(prev), x@, *col, *ord, pos as int);
        }
        out.insert(pos, x);
        proof {
            assert(views_of(out@) =~= views_of(prev).take(pos as int) + seq![x@] + views_of(
                prev,
            ).skip(pos as int));
            assert(views_of(out@) == insert_sorted(views_of(prev), x@, *col, *ord));
        }
        i = i + 1;
        proof {
            assert(views_of(v@.take(i as int)).drop_last() =~= views_of(v@.take(i - 1)));
            assert(views_of(v@.take(i as int)).last() == v@[i - 1]@);
        }
    }
    proof {
        assert(v@.take(v@.len() as int) =~= v@);
    }
    out
}

/// A scan that stopped at `pos` found the exact place `insert_sorted` uses.
proof fn lemma_insert_position(
    s: Seq<ProductV>,
    x: ProductV,
    col: SortColumn,
    ord: SortOrder,
    pos: int,
)
    requires
        0 <= pos <= s.len(),
        forall|k: int| 0 <= k < pos ==> product_le(col, ord, #[trigger] s[k], x),
        pos < s.len() ==> !product_le(col, ord, s[pos], x),
    ensures
        insert_sorted(s, x, col, ord) == s.take(pos) + seq![x] + s.skip(pos),
    decreases s.len(),
{
    if s.len() == 0 {
        assert(insert_sorted(s, x, col, ord) =~= s.take(pos) + seq![x] + s.skip(pos));
    } else if pos == 0 {
        assert(!product_le(col, ord, s[0], x));
        assert(insert_sorted(s, x, col, ord) =~= s.take(0) + seq![x] + s.skip(0));
    } else {
        let tail = s.drop_first();
        assert(product_le(col, ord, s[0], x));
        assert(forall|k: int| 0 <= k < pos - 1 ==> product_le(col, ord, #[trigger] tail[k], x))
            by {
            assert(forall|k: int| 0 <= k < tail.len() ==> tail[k] == s[k + 1]);
        }
        assert(pos - 1 < tail.len() ==> !product_le(col, ord, tail[pos - 1], x));
        lemma_insert_position(tail, x, col, ord, pos - 1);
        assert(insert_sorted(s, x, col, ord) =~= seq![s[0]] + (tail.take(pos - 1) + seq![x]
            + tail.skip(pos - 1)));
        assert(seq![s[0]] + (tail.take(pos - 1) + seq![x] + tail.skip(pos - 1)) =~= s.take(pos)
            + seq![x] + s.skip(pos));
    }
}

} // verus!
