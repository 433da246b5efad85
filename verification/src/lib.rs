//! A verified core for a small CRUD service over two resources, notes and
//! products: pagination arithmetic, sort-column allow-listing, exact decimal
//! prices, partial-update resolution, row-to-response mapping, and the
//! request-level decisions of each endpoint, proved against an in-memory
//! model of the two tables.

use vstd::prelude::*;

pub mod api;
pub mod decimal;
pub mod laws;
pub mod lex;
pub mod model;
pub mod note_store;
pub mod order;
pub mod pagination;
pub mod product_store;
pub mod schema;
pub mod sort;
pub mod time;

pub use api::ApiError;
pub use api::HealthResponse;
pub use api::health_check;
pub use decimal::parse_decimal;
pub use decimal::render_decimal;
pub use model::to_note_response;
pub use model::to_product_response;
pub use note_store::NoteTable;
pub use order::SortColumn;
pub use order::SortOrder;
pub use order::column_ident;
pub use order::order_ident;
pub use order::parse_order;
pub use order::parse_order_by;
pub use product_store::ProductTable;
pub use schema::apply_note_patch;
pub use schema::apply_product_patch;
pub use time::current_timestamp;
pub use time::to_product_response_now;

pub use decimal::Decimal;
pub use model::NoteModel;
pub use model::NoteModelResponse;
pub use model::ProductModel;
pub use model::ProductModelResponse;
pub use pagination::FilterOptions;
pub use pagination::Pagination;
pub use schema::CreateNoteSchema;
pub use schema::CreateProductSchema;
pub use schema::UpdateNoteSchema;
pub use schema::UpdateProductSchema;

verus! {

} // verus!
