//! Stored rows, response shapes, and the mapping from one to the other.
//!
//! Each executable type has a ghost view over `Seq<char>` and plain values,
//! and every contract in the crate speaks of those views.

use crate::decimal::Decimal;
use vstd::prelude::*;
use vstd::string::StrSliceExecFns;

verus! {

/// A row of the `products` table. `id` is assigned once by the store and
/// never changes; nullable columns are options; timestamps are Unix seconds.
#[derive(Debug)]
pub struct ProductModel {
    pub id: u64,
    pub category_id: u64,
    pub name: String,
    pub description: Option<String>,
    pub price: Decimal,
    pub code: i64,
    pub stock: i64,
    pub image: Option<String>,
    pub created_at: Option<i64>,
    pub updated_at: Option<i64>,
}

/// The ghost value of a product row.
#[verifier::ext_equal]
pub ghost struct ProductV {
    pub id: u64,
    pub category_id: u64,
    pub name: Seq<char>,
    pub description: Option<Seq<char>>,
    pub price: Decimal,
    pub code: i64,
    pub stock: i64,
    pub image: Option<Seq<char>>,
    pub created_at: Option<i64>,
    pub updated_at: Option<i64>,
}

/// The ghost value of an optional string.
pub open spec fn opt_view(o: Option<String>) -> Option<Seq<char>> {
    match o {
        Some(s) => Some(s@),
        None => None,
    }
}

impl View for ProductModel {
    type V = ProductV;

    open spec fn view(&self) -> ProductV {
        ProductV {
            id: self.id,
            category_id: self.category_id,
            name: self.name@,
            description: opt_view(self.description),
            price: self.price,
            code: self.code,
            stock: self.stock,
            image: opt_view(self.image),
            created_at: self.created_at,
            updated_at: self.updated_at,
        }
    }
}

/// The public response shape of a product: nullable text columns are filled
/// with the empty string, missing timestamps with the current time.
#[derive(Debug)]
pub struct ProductModelResponse {
    pub id: u64,
    pub category_id: u64,
    pub name: String,
    pub description: Option<String>,
    pub price: Decimal,
    pub code: i64,
    pub stock: i64,
    pub image: Option<String>,
    pub created_at: i64,
    pub updated_at: i64,
}

/// The ghost value of a product response.
#[verifier::ext_equal]
pub ghost struct ProductResponseV {
    pub id: u64,
    pub category_id: u64,
    pub name: Seq<char>,
    pub description: Option<Seq<char>>,
    pub price: Decimal,
    pub code: i64,
    pub stock: i64,
    pub image: Option<Seq<char>>,
    pub created_at: i64,
    pub updated_at: i64,
}

impl View for ProductModelResponse {
    type V = ProductResponseV;

    open spec fn view(&self) -> ProductResponseV {
        ProductResponseV {
            id: self.id,
            category_id: self.category_id,
            name: self.name@,
            description: opt_view(self.description),
            price: self.price,
            code: self.code,
            stock: self.stock,
            image: opt_view(self.image),
            created_at: self.created_at,
            updated_at: self.updated_at,
        }
    }
}

/// What the response of a stored product must hold: every field carried over,
/// absent text defaulted to the empty string, absent timestamps to `now`.
pub open spec fn product_response_of(p: ProductV, now: i64) -> ProductResponseV {
    ProductResponseV {
        id: p.id,
        category_id: p.category_id,
        name: p.name,
        description: Some(
            match p.description {
                Some(d) => d,
                None => Seq::<char>::empty(),
            },
        ),
        price: p.price,
        code: p.code,
        stock: p.stock,
        image: Some(
            match p.image {
                Some(im) => im,
                None => Seq::<char>::empty(),
            },
        ),
        created_at: match p.created_at {
            Some(t) => t,
            None => now,
        },
        updated_at: match p.updated_at {
            Some(t) => t,
            None => now,
        },
    }
}

/// Maps a stored product row to its response shape, keeping the price exact
/// and substituting `now` for a missing timestamp.
pub fn to_product_response(p: &ProductModel, now: i64) -> (r: ProductModelResponse)
    ensures
        r@ == product_response_of(p@, now),
{
    let r = ProductModelResponse {
        id: p.id,
        category_id: p.category_id,
        name: p.name.clone(),
        description: Some(
            match &p.description {
                Some(d) => d.clone(),
                None => String::new(),
            },
        ),
        price: p.price,
        code: p.code,
        stock: p.stock,
        image: Some(
            match &p.image {
                Some(im) => im.clone(),
                None => String::new(),
            },
        ),
        created_at: match p.created_at {
            Some(t) => t,
            None => now,
        },
        updated_at: match p.updated_at {
            Some(t) => t,
            None => now,
        },
    };
    proof {
        assert(r@ =~= product_response_of(p@, now));
    }
    r
}

/// A field-by-field copy of a product row (its strings are cloned).
pub fn copy_product(p: &ProductModel) -> (r: ProductModel)
    ensures
        r@ == p@,
{
    let r = ProductModel {
        id: p.id,
        category_id: p.category_id,
        name: p.name.clone(),
        description: match &p.description {
            Some(d) => Some(d.clone()),
            None => None,
        },
        price: p.price,
        code: p.code,
        stock: p.stock,
        image: match &p.image {
            Some(im) => Some(im.clone()),
            None => None,
        },
        created_at: p.created_at,
        updated_at: p.updated_at,
    };
    proof {
        assert(r@ =~= p@);
    }
    r
}

/// A row of the `notes` table. `id` is a server-generated identifier string;
/// `is_published` is stored in its numeric form, 0 or 1.
#[derive(Debug)]
pub struct NoteModel {
    pub id: String,
    pub title: String,
    pub content: String,
    pub is_published: i8,
    pub created_at: i64,
    pub updated_at: i64,
}

/// The ghost value of a note row.
#[verifier::ext_equal]
pub ghost struct NoteV {
    pub id: Seq<char>,
    pub title: Seq<char>,
    pub content: Seq<char>,
    pub is_published: i8,
    pub created_at: i64,
    pub updated_at: i64,
}

impl View for NoteModel {
    type V = NoteV;

    open spec fn view(&self) -> NoteV {
        NoteV {
            id: self.id@,
            title: self.title@,
            content: self.content@,
            is_published: self.is_published,
            created_at: self.created_at,
            updated_at: self.updated_at,
        }
    }
}

/// The public response shape of a note: the stored 0/1 flag re-hydrated to a
/// boolean.
#[derive(Debug)]
pub struct NoteModelResponse {
    pub id: String,
    pub title: String,
    pub content: String,
    pub is_published: bool,
    pub created_at: i64,
    pub updated_at: i64,
}

/// The ghost value of a note response.
#[verifier::ext_equal]
pub ghost struct NoteResponseV {
    pub id: Seq<char>,
    pub title: Seq<char>,
    pub content: Seq<char>,
    pub is_published: bool,
    pub created_at: i64,
    pub updated_at: i64,
}

impl View for NoteModelResponse {
    type V = NoteResponseV;

    open spec fn view(&self) -> NoteResponseV {
        NoteResponseV {
            id: self.id@,
            title: self.title@,
            content: self.content@,
            is_published: self.is_published,
            created_at: self.created_at,
            updated_at: self.updated_at,
        }
    }
}

/// What the response of a stored note must hold.
pub open spec fn note_response_of(n: NoteV) -> NoteResponseV {
    NoteResponseV {
        id: n.id,
        title: n.title,
        content: n.content,
        is_published: n.is_published != 0,
        created_at: n.created_at,
        updated_at: n.updated_at,
    }
}

/// Maps a stored note row to its response shape.
pub fn to_note_response(n: &NoteModel) -> (r: NoteModelResponse)
    ensures
        r@ == note_response_of(n@),
{
    let r = NoteModelResponse {
        id: n.id.clone(),
        title: n.title.clone(),
        content: n.content.clone(),
        is_published: n.is_published != 0,
        created_at: n.created_at,
        updated_at: n.updated_at,
    };
    proof {
        assert(r@ =~= note_response_of(n@));
    }
    r
}

/// A field-by-field copy of a note row.
pub fn copy_note(n: &NoteModel) -> (r: NoteModel)
    ensures
        r@ == n@,
{
    let r = NoteModel {
        id: n.id.clone(),
        title: n.title.clone(),
        content: n.content.clone(),
        is_published: n.is_published,
        created_at: n.created_at,
        updated_at: n.updated_at,
    };
    proof {
        assert(r@ =~= n@);
    }
    r
}

/// Whether two string slices hold the same characters.
pub fn str_eq(a: &str, b: &str) -> (r: bool)
    ensures
        r == (a@ == b@),
{
    let alen = a.unicode_len();
    let blen = b.unicode_len();
    if alen != blen {
        return false;
    }
    let mut i: usize = 0;
    while i < alen
        invariant
            0 <= i <= alen,
            alen == a@.len(),
            alen == b@.len(),
            forall|j: int| 0 <= j < i ==> a@[j] == b@[j],
        decreases alen - i,
    {
        if a.get_char(i) != b.get_char(i) {
            return false;
        }
        i = i + 1;
    }
    proof {
        assert(a@ =~= b@);
    }
    true
}

} // verus!
