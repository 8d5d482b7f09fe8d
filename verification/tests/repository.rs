use item_repo::item::ItemPayload;
use item_repo::repository::ItemStore;

fn payload(name: &str, description: &str) -> ItemPayload {
    ItemPayload { name: name.to_owned(), description: description.to_owned() }
}

#[test]
fn create_then_get_roundtrip() {
    let mut store = ItemStore::new();
    let created = store.create_item(payload("alpha", "first"), 10);
    assert_eq!(created.id, 1);
    assert_eq!(created.name, "alpha");
    assert_eq!(created.description, "first");
    assert_eq!(created.created_at, created.updated_at);

    let fetched = store.get_item_by_id(created.id).expect("created item must be found");
    assert_eq!(fetched.id, created.id);
    assert_eq!(fetched.name, created.name);
    assert_eq!(fetched.description, created.description);
    assert_eq!(fetched.created_at, created.created_at);
    assert_eq!(fetched.updated_at, created.updated_at);
}

#[test]
fn absent_id_is_not_found_everywhere() {
    let mut store = ItemStore::new();
    store.create_item(payload("alpha", "first"), 10);

    assert!(store.get_item_by_id(42).is_none());
    assert!(store.update_item_by_id(42, &payload("beta", "second"), 20).is_none());
    assert!(!store.delete_item_by_id(42));
    assert_eq!(store.len(), 1);
}

#[test]
fn update_replaces_fields_and_advances_updated_at() {
    let mut store = ItemStore::new();
    let created = store.create_item(payload("alpha", "first"), 10);

    let updated = store
        .update_item_by_id(created.id, &payload("beta", "second"), 25)
        .expect("existing id must be updatable");
    assert_eq!(updated.id, created.id);
    assert_eq!(updated.name, "beta");
    assert_eq!(updated.description, "second");
    assert_eq!(updated.created_at, created.created_at);
    assert!(updated.updated_at >= created.updated_at);
    assert_eq!(updated.updated_at, 25);

    let fetched = store.get_item_by_id(created.id).expect("updated item must be found");
    assert_eq!(fetched.name, "beta");
    assert_eq!(fetched.description, "second");
    assert_eq!(fetched.created_at, created.created_at);
    assert_eq!(fetched.updated_at, 25);
}

#[test]
fn delete_then_get_is_not_found_and_second_delete_reports_absence() {
    let mut store = ItemStore::new();
    let created = store.create_item(payload("alpha", "first"), 10);

    assert!(store.delete_item_by_id(created.id));
    assert!(store.get_item_by_id(created.id).is_none());
    assert!(!store.delete_item_by_id(created.id));
}

#[test]
fn list_returns_newest_first() {
    let mut store = ItemStore::new();
    let a = store.create_item(payload("a", "one"), 1);
    let b = store.create_item(payload("b", "two"), 2);
    let c = store.create_item(payload("c", "three"), 3);

    let listed = store.get_all_items();
    assert_eq!(listed.len(), 3);
    assert_eq!(listed[0].id, c.id);
    assert_eq!(listed[1].id, b.id);
    assert_eq!(listed[2].id, a.id);
    assert_eq!(listed[0].name, "c");
    assert_eq!(listed[1].name, "b");
    assert_eq!(listed[2].name, "a");
}

#[test]
fn scenario_pen_becomes_pencil_then_vanishes() {
    let mut store = ItemStore::new();
    let pen = store.create_item(payload("pen", "blue pen"), 100);
    assert!(pen.id >= 1);
    assert_eq!(pen.created_at, pen.updated_at);

    let pencil = store
        .update_item_by_id(pen.id, &payload("pencil", "HB"), 200)
        .expect("the pen must be updatable");
    assert_eq!(pencil.name, "pencil");
    assert_eq!(pencil.description, "HB");
    assert!(pencil.updated_at > pencil.created_at);

    assert!(store.delete_item_by_id(pen.id));
    assert!(store.get_item_by_id(pen.id).is_none());
}

#[test]
fn identities_are_never_reused_after_deletion() {
    let mut store = ItemStore::new();
    let first = store.create_item(payload("alpha", "first"), 10);
    assert!(store.delete_item_by_id(first.id));
    let second = store.create_item(payload("beta", "second"), 20);
    assert_ne!(first.id, second.id);
    assert!(second.id > first.id);
}

#[test]
fn fresh_store_is_empty_and_clock_tracks_operations() {
    let mut store = ItemStore::new();
    assert_eq!(store.len(), 0);
    assert_eq!(store.clock(), 0);
    assert!(store.get_all_items().is_empty());
    assert!(store.has_capacity());

    store.create_item(payload("alpha", "first"), 7);
    assert_eq!(store.clock(), 7);
    store.update_item_by_id(1, &payload("beta", "second"), 9);
    assert_eq!(store.clock(), 9);
    store.delete_item_by_id(1);
    assert_eq!(store.clock(), 9);
}

#[test]
fn payload_validity_requires_a_name() {
    assert!(payload("alpha", "").is_valid());
    assert!(!payload("", "described").is_valid());
}
