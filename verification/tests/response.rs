use item_repo::item::{Item, ItemPayload};
use item_repo::repository::ItemStore;
use item_repo::response::{
    create_item_status, db_error, delete_item_by_id_status, get_all_items_status,
    get_item_by_id_status, update_item_by_id_status, AppError, RepoError,
};

fn sample_item() -> Item {
    let mut store = ItemStore::new();
    store.create_item(
        ItemPayload { name: "alpha".to_owned(), description: "first".to_owned() },
        10,
    )
}

#[test]
fn app_error_constructors_keep_message_and_code() {
    let e = AppError::new("boom".to_owned(), 418);
    assert_eq!(e.message, "boom");
    assert_eq!(e.status_code(), 418);

    assert_eq!(AppError::internal_server_error("x".to_owned()).status_code(), 500);
    assert_eq!(AppError::bad_request("x".to_owned()).status_code(), 400);
    assert_eq!(AppError::not_found("x".to_owned()).status_code(), 404);
}

#[test]
fn database_failures_map_to_a_fixed_500() {
    let e = db_error();
    assert_eq!(e.status_code(), 500);
    assert_eq!(e.message, "Database error occurred");
}

#[test]
fn create_route_statuses() {
    assert_eq!(create_item_status(&Ok(sample_item())), 201);
    assert_eq!(create_item_status(&Err(RepoError::Operation)), 500);
}

#[test]
fn list_route_statuses() {
    assert_eq!(get_all_items_status(&Ok(vec![sample_item()])), 200);
    assert_eq!(get_all_items_status(&Ok(vec![])), 200);
    assert_eq!(get_all_items_status(&Err(RepoError::Connectivity)), 500);
}

#[test]
fn get_route_statuses() {
    assert_eq!(get_item_by_id_status(&Ok(Some(sample_item()))), 200);
    assert_eq!(get_item_by_id_status(&Ok(None)), 404);
    assert_eq!(get_item_by_id_status(&Err(RepoError::Operation)), 500);
}

#[test]
fn update_route_statuses() {
    assert_eq!(update_item_by_id_status(&Ok(Some(sample_item()))), 200);
    assert_eq!(update_item_by_id_status(&Ok(None)), 404);
    assert_eq!(update_item_by_id_status(&Err(RepoError::Schema)), 500);
}

#[test]
fn delete_route_statuses() {
    assert_eq!(delete_item_by_id_status(&Ok(true)), 204);
    assert_eq!(delete_item_by_id_status(&Ok(false)), 404);
    assert_eq!(delete_item_by_id_status(&Err(RepoError::Operation)), 500);
}
