use product_service::ApiError;
use product_service::CreateNoteSchema;
use product_service::CreateProductSchema;
use product_service::Decimal;
use product_service::FilterOptions;
use product_service::NoteTable;
use product_service::ProductModel;
use product_service::ProductTable;
use product_service::SortColumn;
use product_service::SortOrder;
use product_service::UpdateNoteSchema;
use product_service::UpdateProductSchema;
use product_service::column_ident;
use product_service::health_check;
use product_service::order_ident;
use product_service::parse_decimal;
use product_service::parse_order;
use product_service::parse_order_by;
use product_service::render_decimal;
use product_service::to_product_response;

fn no_filter() -> FilterOptions {
    FilterOptions { page: None, limit: None, order: None, order_by: None }
}

fn filter(page: usize, limit: usize) -> FilterOptions {
    FilterOptions { page: Some(page), limit: Some(limit), order: None, order_by: None }
}

fn product_body(name: &str, price: &str, stock: u32) -> CreateProductSchema {
    CreateProductSchema {
        name: name.to_string(),
        description: format!("{} description", name),
        price: parse_decimal(price.as_bytes()),
        category_id: 1,
        code: 100,
        stock,
    }
}

fn empty_product_patch() -> UpdateProductSchema {
    UpdateProductSchema {
        name: None,
        description: None,
        price: None,
        category_id: None,
        code: None,
        stock: None,
    }
}

#[test]
fn health_check_payload_is_fixed() {
    let r = health_check();
    assert_eq!(r.status, "ok");
    assert_eq!(r.message, "API Product Service");
}

#[test]
fn pagination_resolves_offset() {
    assert_eq!(filter(1, 10).resolve_pagination().offset, 0);
    assert_eq!(filter(3, 7).resolve_pagination().offset, 14);
    let d = no_filter().resolve_pagination();
    assert_eq!(d.limit, 10);
    assert_eq!(d.offset, 0);
}

#[test]
fn page_zero_is_clamped_not_wrapped() {
    let p = filter(0, 10).resolve_pagination();
    assert_eq!(p.offset, 0);
    assert_eq!(p.limit, 10);
}

#[test]
fn order_by_allow_list() {
    assert_eq!(parse_order_by("id"), Some(SortColumn::Id));
    assert_eq!(parse_order_by("category_id"), Some(SortColumn::CategoryId));
    assert_eq!(parse_order_by("code"), Some(SortColumn::Code));
    assert_eq!(parse_order_by("stock"), Some(SortColumn::Stock));
    assert_eq!(parse_order_by("price"), Some(SortColumn::Price));
    assert_eq!(parse_order_by("name"), Some(SortColumn::Name));
    assert_eq!(parse_order_by("name; DROP TABLE products"), None);
    assert_eq!(parse_order_by("price desc"), None);
    assert_eq!(parse_order_by(""), None);
    assert_eq!(parse_order("asc"), Some(SortOrder::Asc));
    assert_eq!(parse_order("desc"), Some(SortOrder::Desc));
    assert_eq!(parse_order("sideways"), None);
}

#[test]
fn sort_identifiers_come_from_the_enum() {
    for c in [
        SortColumn::Id,
        SortColumn::CategoryId,
        SortColumn::Code,
        SortColumn::Stock,
        SortColumn::Price,
        SortColumn::Name,
    ] {
        assert_eq!(parse_order_by(column_ident(&c)), Some(c));
    }
    assert_eq!(order_ident(&SortOrder::Asc), "asc");
    assert_eq!(order_ident(&SortOrder::Desc), "desc");
}

#[test]
fn list_returns_at_most_limit_items() {
    let mut t = ProductTable::new();
    for i in 0..25u32 {
        t.create_product(&product_body(&format!("p{}", i), "5.00", i), 1000);
    }
    let items = t.list_products(&filter(1, 10), 2000).unwrap();
    assert_eq!(items.len(), 10);
    // first page starts at the first row in ascending id order
    assert_eq!(items[0].id, 1);
    assert_eq!(items[9].id, 10);
    let page3 = t.list_products(&filter(3, 10), 2000).unwrap();
    assert_eq!(page3.len(), 5);
    assert_eq!(page3[0].id, 21);
    let beyond = t.list_products(&filter(9, 10), 2000).unwrap();
    assert_eq!(beyond.len(), 0);
}

#[test]
fn list_orders_by_price_descending() {
    let mut t = ProductTable::new();
    t.create_product(&product_body("cheap", "1.50", 1), 1000);
    t.create_product(&product_body("dear", "19.99", 1), 1000);
    t.create_product(&product_body("middle", "7.00", 1), 1000);
    let opts = FilterOptions {
        page: None,
        limit: None,
        order: Some("desc".to_string()),
        order_by: Some("price".to_string()),
    };
    let items = t.list_products(&opts, 2000).unwrap();
    let names: Vec<&str> = items.iter().map(|p| p.name.as_str()).collect();
    assert_eq!(names, vec!["dear", "middle", "cheap"]);
}

#[test]
fn list_orders_by_name_ascending() {
    let mut t = ProductTable::new();
    t.create_product(&product_body("pear", "1.00", 1), 1000);
    t.create_product(&product_body("apple", "1.00", 1), 1000);
    t.create_product(&product_body("apple", "2.00", 1), 1000);
    t.create_product(&product_body("banana", "1.00", 1), 1000);
    let opts = FilterOptions {
        page: None,
        limit: None,
        order: Some("asc".to_string()),
        order_by: Some("name".to_string()),
    };
    let items = t.list_products(&opts, 2000).unwrap();
    let names: Vec<&str> = items.iter().map(|p| p.name.as_str()).collect();
    assert_eq!(names, vec!["apple", "apple", "banana", "pear"]);
    // equal names tie-break by ascending id
    assert_eq!(items[0].id, 2);
    assert_eq!(items[1].id, 3);
}

#[test]
fn list_rejects_unknown_order_by() {
    let mut t = ProductTable::new();
    t.create_product(&product_body("p", "1.00", 1), 1000);
    let opts = FilterOptions {
        page: None,
        limit: None,
        order: None,
        order_by: Some("image; --".to_string()),
    };
    let err = t.list_products(&opts, 2000).unwrap_err();
    assert_eq!(err, ApiError::Validation);
    assert_eq!(err.http_status(), 400);
    assert_eq!(err.status_label(), "fail");
}

#[test]
fn create_then_get_product() {
    let mut t = ProductTable::new();
    let created = t.create_product(&product_body("gadget", "19.99", 3), 1234);
    assert_eq!(created.id, 1);
    let fetched = t.get_product(1, 5678).unwrap();
    assert_eq!(fetched.name, "gadget");
    assert_eq!(fetched.description.as_deref(), Some("gadget description"));
    assert_eq!(fetched.price, Decimal { units: 1999, scale: 2 });
    assert_eq!(fetched.stock, 3);
    assert_eq!(fetched.code, 100);
    assert_eq!(fetched.category_id, 1);
    assert_eq!(fetched.created_at, 1234);
    assert_eq!(fetched.updated_at, 1234);
}

#[test]
fn get_missing_product_is_not_found_not_crash() {
    let t = ProductTable::new();
    let err = t.get_product(77, 0).unwrap_err();
    assert_eq!(err, ApiError::NotFound);
    assert_eq!(err.http_status(), 404);
    assert_eq!(err.status_label(), "fail");
}

#[test]
fn response_mapping_defaults_missing_text_columns() {
    // a stored row whose nullable columns are all absent
    let row = ProductModel {
        id: 9,
        category_id: 2,
        name: "bare".to_string(),
        description: None,
        price: Decimal { units: 100, scale: 2 },
        code: 5,
        stock: 0,
        image: None,
        created_at: None,
        updated_at: None,
    };
    let resp = to_product_response(&row, 4242);
    assert_eq!(resp.description.as_deref(), Some(""));
    assert_eq!(resp.image.as_deref(), Some(""));
    assert_eq!(resp.created_at, 4242);
    assert_eq!(resp.updated_at, 4242);
    assert_eq!(resp.price, Decimal { units: 100, scale: 2 });
}

#[test]
fn update_with_name_only_changes_only_name() {
    let mut t = ProductTable::new();
    t.create_product(&product_body("before", "19.99", 7), 1000);
    let patch = UpdateProductSchema { name: Some("X".to_string()), ..empty_product_patch() };
    let updated = t.update_product(1, &patch, 2000).unwrap();
    assert_eq!(updated.name, "X");
    assert_eq!(updated.description.as_deref(), Some("before description"));
    assert_eq!(updated.price, Decimal { units: 1999, scale: 2 });
    assert_eq!(updated.stock, 7);
    assert_eq!(updated.code, 100);
    assert_eq!(updated.category_id, 1);
    // the product variant does not refresh the update timestamp
    assert_eq!(updated.updated_at, 1000);
}

#[test]
fn update_missing_product_is_not_found() {
    let mut t = ProductTable::new();
    let err = t.update_product(3, &empty_product_patch(), 0).unwrap_err();
    assert_eq!(err, ApiError::NotFound);
    assert_eq!(err.http_status(), 404);
}

#[test]
fn delete_missing_product_is_404_fail_not_500() {
    let mut t = ProductTable::new();
    t.create_product(&product_body("p", "1.00", 1), 1000);
    let err = t.delete_product(2).unwrap_err();
    assert_eq!(err, ApiError::NotFound);
    assert_eq!(err.http_status(), 404);
    assert_eq!(err.status_label(), "fail");
    // the row that does exist is untouched
    assert!(t.get_product(1, 0).is_ok());
}

#[test]
fn delete_then_get_product() {
    let mut t = ProductTable::new();
    t.create_product(&product_body("p", "1.00", 1), 1000);
    assert!(t.delete_product(1).is_ok());
    assert_eq!(t.get_product(1, 0).unwrap_err(), ApiError::NotFound);
    assert_eq!(t.len(), 0);
}

#[test]
fn product_price_survives_storage_round_trip() {
    let mut t = ProductTable::new();
    t.create_product(&product_body("exact", "19.99", 1), 1000);
    let fetched = t.get_product(1, 0).unwrap();
    assert_eq!(String::from_utf8(render_decimal(&fetched.price)).unwrap(), "19.99");
}

#[test]
fn error_classes_map_to_status_and_envelope() {
    assert_eq!(ApiError::NotFound.http_status(), 404);
    assert_eq!(ApiError::Conflict.http_status(), 409);
    assert_eq!(ApiError::Validation.http_status(), 400);
    assert_eq!(ApiError::Storage.http_status(), 500);
    assert_eq!(ApiError::NotFound.status_label(), "fail");
    assert_eq!(ApiError::Conflict.status_label(), "fail");
    assert_eq!(ApiError::Validation.status_label(), "fail");
    assert_eq!(ApiError::Storage.status_label(), "error");
}

#[test]
fn clock_mapping_keeps_stored_timestamps() {
    let row = ProductModel {
        id: 1,
        category_id: 1,
        name: "kept".to_string(),
        description: Some("d".to_string()),
        price: Decimal { units: 1, scale: 0 },
        code: 0,
        stock: 0,
        image: None,
        created_at: Some(111),
        updated_at: Some(222),
    };
    let resp = product_service::to_product_response_now(&row);
    assert_eq!(resp.created_at, 111);
    assert_eq!(resp.updated_at, 222);

    let bare = ProductModel { created_at: None, updated_at: None, ..row };
    let resp = product_service::to_product_response_now(&bare);
    // both missing timestamps are filled from a single clock reading
    assert_eq!(resp.created_at, resp.updated_at);
}

fn note_body(title: &str, content: &str, is_published: Option<bool>) -> CreateNoteSchema {
    CreateNoteSchema { title: title.to_string(), content: content.to_string(), is_published }
}

#[test]
fn create_then_get_note_defaults_unpublished() {
    let mut t = NoteTable::new();
    let created = t.create_note(&note_body("Title", "Body", None), "id-1", 100).unwrap();
    assert_eq!(created.id, "id-1");
    let fetched = t.get_note("id-1").unwrap();
    assert_eq!(fetched.title, "Title");
    assert_eq!(fetched.content, "Body");
    assert!(!fetched.is_published);
    assert_eq!(fetched.created_at, 100);
}

#[test]
fn duplicate_note_id_is_conflict() {
    let mut t = NoteTable::new();
    t.create_note(&note_body("a", "b", None), "same", 1).unwrap();
    let err = t.create_note(&note_body("c", "d", None), "same", 2).unwrap_err();
    assert_eq!(err, ApiError::Conflict);
    assert_eq!(err.http_status(), 409);
    assert_eq!(err.status_label(), "fail");
    assert_eq!(t.len(), 1);
}

#[test]
fn note_partial_update_keeps_other_fields() {
    let mut t = NoteTable::new();
    t.create_note(&note_body("Title", "Body", Some(true)), "n1", 100).unwrap();
    let patch = UpdateNoteSchema { title: Some("New".to_string()), content: None, is_published: None };
    let updated = t.update_note("n1", &patch, 200).unwrap();
    assert_eq!(updated.title, "New");
    assert_eq!(updated.content, "Body");
    assert!(updated.is_published);
    assert_eq!(updated.created_at, 100);
    // the note variant refreshes the update timestamp
    assert_eq!(updated.updated_at, 200);
}

#[test]
fn note_not_found_paths() {
    let mut t = NoteTable::new();
    assert_eq!(t.get_note("nope").unwrap_err(), ApiError::NotFound);
    assert_eq!(t.delete_note("nope").unwrap_err(), ApiError::NotFound);
    let patch = UpdateNoteSchema { title: None, content: None, is_published: None };
    assert_eq!(t.update_note("nope", &patch, 0).unwrap_err(), ApiError::NotFound);
}

#[test]
fn note_list_pages_in_creation_order() {
    let mut t = NoteTable::new();
    for i in 0..5u32 {
        t.create_note(&note_body(&format!("t{}", i), "c", None), &format!("id-{}", i), 1).unwrap();
    }
    let page = t.list_notes(&filter(2, 2));
    assert_eq!(page.len(), 2);
    assert_eq!(page[0].id, "id-2");
    assert_eq!(page[1].id, "id-3");
}
