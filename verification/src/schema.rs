//! Request bodies of the create and update endpoints, and the
//! coalesce-on-missing rule of partial updates: a field present in the
//! payload takes its new value, an absent field keeps the stored one.

use crate::decimal::Decimal;
use crate::model::NoteV;
use crate::model::ProductV;
use crate::model::opt_view;
use vstd::prelude::*;

verus! {

/// The body of a product create request. `code` and `stock` are taken
/// non-negative at the boundary; an omitted price is stored as zero.
pub struct CreateProductSchema {
    pub name: String,
    pub description: String,
    pub price: Option<Decimal>,
    pub category_id: u64,
    pub code: u32,
    pub stock: u32,
}

/// The ghost value of a product create request.
#[verifier::ext_equal]
pub ghost struct CreateProductV {
    pub name: Seq<char>,
    pub description: Seq<char>,
    pub price: Option<Decimal>,
    pub category_id: u64,
    pub code: u32,
    pub stock: u32,
}

impl View for CreateProductSchema {
    type V = CreateProductV;

    open spec fn view(&self) -> CreateProductV {
        CreateProductV {
            name: self.name@,
            description: self.description@,
            price: self.price,
            category_id: self.category_id,
            code: self.code,
            stock: self.stock,
        }
    }
}

/// The body of a product update request: every field optional.
pub struct UpdateProductSchema {
    pub name: Option<String>,
    pub description: Option<String>,
    pub price: Option<Decimal>,
    pub category_id: Option<u64>,
    pub code: Option<u32>,
    pub stock: Option<u32>,
}

/// The ghost value of a product update request.
#[verifier::ext_equal]
pub ghost struct UpdateProductV {
    pub name: Option<Seq<char>>,
    pub description: Option<Seq<char>>,
    pub price: Option<Decimal>,
    pub category_id: Option<u64>,
    pub code: Option<u32>,
    pub stock: Option<u32>,
}

impl View for UpdateProductSchema {
    type V = UpdateProductV;

    open spec fn view(&self) -> UpdateProductV {
        UpdateProductV {
            name: opt_view(self.name),
            description: opt_view(self.description),
            price: self.price,
            category_id: self.category_id,
            code: self.code,
            stock: self.stock,
        }
    }
}

/// The row a product update resolves to: each supplied field replaces the
/// stored value, each omitted field keeps it; `id`, `image` and both
/// timestamps are never touched by an update.
pub open spec fn resolved_product(cur: ProductV, patch: UpdateProductV) -> ProductV {
    ProductV {
        id: cur.id,
        category_id: match patch.category_id {
            Some(c) => c,
            None => cur.category_id,
        },
        name: match patch.name {
            Some(n) => n,
            None => cur.name,
        },
        description: match patch.description {
            Some(d) => Some(d),
            None => cur.description,
        },
        price: match patch.price {
            Some(p) => p,
            None => cur.price,
        },
        code: match patch.code {
            Some(c) => c as i64,
            None => cur.code,
        },
        stock: match patch.stock {
            Some(s) => s as i64,
            None => cur.stock,
        },
        image: cur.image,
        created_at: cur.created_at,
        updated_at: cur.updated_at,
    }
}

/// Builds the fully resolved row of a product update, per the
/// coalesce-on-missing rule of [`resolved_product`].
pub fn apply_product_patch(
    cur: &crate::model::ProductModel,
    patch: &UpdateProductSchema,
) -> (r: crate::model::ProductModel)
    ensures
        r@ == resolved_product(cur@, patch@),
{
    let r = crate::model::ProductModel {
        id: cur.id,
        category_id: match patch.category_id {
            Some(c) => c,
            None => cur.category_id,
        },
        name: match &patch.name {
            Some(n) => n.clone(),
            None => cur.name.clone(),
        },
        description: match &patch.description {
            Some(d) => Some(d.clone()),
            None => match &cur.description {
                Some(d) => Some(d.clone()),
                None => None,
            },
        },
        price: match patch.price {
            Some(p) => p,
            None => cur.price,
        },
        code: match patch.code {
            Some(c) => c as i64,
            None => cur.code,
        },
        stock: match patch.stock {
            Some(s) => s as i64,
            None => cur.stock,
        },
        image: match &cur.image {
            Some(im) => Some(im.clone()),
            None => None,
        },
        created_at: cur.created_at,
        updated_at: cur.updated_at,
    };
    proof {
        assert(r@ =~= resolved_product(cur@, patch@));
    }
    r
}

/// The body of a note create request; an omitted `is_published` means
/// unpublished.
pub struct CreateNoteSchema {
    pub title: String,
    pub content: String,
    pub is_published: Option<bool>,
}

/// The ghost value of a note create request.
#[verifier::ext_equal]
pub ghost struct CreateNoteV {
    pub title: Seq<char>,
    pub content: Seq<char>,
    pub is_published: Option<bool>,
}

impl View for CreateNoteSchema {
    type V = CreateNoteV;

    open spec fn view(&self) -> CreateNoteV {
        CreateNoteV { title: self.title@, content: self.content@, is_published: self.is_published }
    }
}

/// The body of a note update request: every field optional.
pub struct UpdateNoteSchema {
    pub title: Option<String>,
    pub content: Option<String>,
    pub is_published: Option<bool>,
}

/// The ghost value of a note update request.
#[verifier::ext_equal]
pub ghost struct UpdateNoteV {
    pub title: Option<Seq<char>>,
    pub content: Option<Seq<char>>,
    pub is_published: Option<bool>,
}

impl View for UpdateNoteSchema {
    type V = UpdateNoteV;

    open spec fn view(&self) -> UpdateNoteV {
        UpdateNoteV {
            title: opt_view(self.title),
            content: opt_view(self.content),
            is_published: self.is_published,
        }
    }
}

/// The row a note update resolves to, per the coalesce-on-missing rule; a
/// note update refreshes `updated_at` to `now`.
pub open spec fn resolved_note(cur: NoteV, patch: UpdateNoteV, now: i64) -> NoteV {
    NoteV {
        id: cur.id,
        title: match patch.title {
            Some(t) => t,
            None => cur.title,
        },
        content: match patch.content {
            Some(c) => c,
            None => cur.content,
        },
        is_published: match patch.is_published {
            Some(p) => if p {
                1
            } else {
                0
            },
            None => cur.is_published,
        },
        created_at: cur.created_at,
        updated_at: now,
    }
}

/// Builds the fully resolved row of a note update, per the
/// coalesce-on-missing rule of [`resolved_note`].
pub fn apply_note_patch(
    cur: &crate::model::NoteModel,
    patch: &UpdateNoteSchema,
    now: i64,
) -> (r: crate::model::NoteModel)
    ensures
        r@ == resolved_note(cur@, patch@, now),
{
    let r = crate::model::NoteModel {
        id: cur.id.clone(),
        title: match &patch.title {
            Some(t) => t.clone(),
            None => cur.title.clone(),
        },
        content: match &patch.content {
            Some(c) => c.clone(),
            None => cur.content.clone(),
        },
        is_published: match patch.is_published {
            Some(p) => if p {
                1
            } else {
                0
            },
            None => cur.is_published,
        },
        created_at: cur.created_at,
        updated_at: now,
    };
    proof {
        assert(r@ =~= resolved_note(cur@, patch@, now));
    }
    r
}

} // verus!
