use workflowy_desktop::store::{
    delete_bookmark, list_bookmarks, sorted_listing, update_bookmark_context, BookmarkRow,
    BookmarkStore, BookmarkTable, StoreError,
};

fn text(s: &str) -> Option<String> {
    Some(s.to_string())
}

fn row(name: &str, node: &str, context: Option<&str>) -> BookmarkRow {
    BookmarkRow {
        name: text(name),
        node_id: text(node),
        context: context.map(|c| c.to_string()),
        created_at: text("2024-01-01"),
    }
}

fn columns(names: &[&str]) -> Vec<String> {
    names.iter().map(|n| n.to_string()).collect()
}

fn store_of(rows: Vec<BookmarkRow>) -> Option<BookmarkStore> {
    Some(BookmarkStore {
        table: Some(BookmarkTable {
            columns: columns(&["name", "node_id", "context", "created_at"]),
            rows,
        }),
    })
}

fn rows_of(store: &Option<BookmarkStore>) -> &Vec<BookmarkRow> {
    &store.as_ref().unwrap().table.as_ref().unwrap().rows
}

#[test]
fn lists_all_rows_sorted_by_name() {
    let mut store = store_of(vec![
        row("zeta", "n3", None),
        row("alpha", "n1", Some("first")),
        row("Mid", "n2", None),
        row("beta", "n4", None),
    ]);
    let listed = list_bookmarks(&mut store).ok().unwrap();
    let names: Vec<&str> = listed.iter().map(|b| b.name.as_str()).collect();
    assert_eq!(names, vec!["Mid", "alpha", "beta", "zeta"]);
    assert_eq!(listed[1].node_id, "n1");
    assert_eq!(listed[1].context.as_deref(), Some("first"));
    assert_eq!(listed[1].created_at.as_deref(), Some("2024-01-01"));
}

#[test]
fn orders_a_prefix_before_its_extension() {
    let listed = sorted_listing(&vec![row("abc", "1", None), row("ab", "2", None), row("", "3", None)]);
    let names: Vec<&str> = listed.iter().map(|b| b.name.as_str()).collect();
    assert_eq!(names, vec!["", "ab", "abc"]);
}

#[test]
fn missing_store_lists_empty() {
    let mut store: Option<BookmarkStore> = None;
    let listed = list_bookmarks(&mut store).ok().unwrap();
    assert!(listed.is_empty());
}

#[test]
fn undecodable_rows_are_dropped() {
    let mut broken = row("b", "x", None);
    broken.node_id = None;
    let mut nameless = row("c", "y", None);
    nameless.name = None;
    let listed = sorted_listing(&vec![row("a", "1", None), broken, nameless, row("d", "2", None)]);
    let names: Vec<&str> = listed.iter().map(|b| b.name.as_str()).collect();
    assert_eq!(names, vec!["a", "d"]);
}

#[test]
fn listing_adds_missing_context_column() {
    let mut store = Some(BookmarkStore {
        table: Some(BookmarkTable {
            columns: columns(&["name", "node_id", "created_at"]),
            rows: vec![row("a", "1", None)],
        }),
    });
    assert_eq!(list_bookmarks(&mut store).ok().unwrap().len(), 1);
    let cols = store.as_ref().unwrap().table.as_ref().unwrap().columns.clone();
    assert_eq!(cols, columns(&["name", "node_id", "created_at", "context"]));
}

#[test]
fn migrating_twice_changes_nothing_more() {
    let mut store = BookmarkStore {
        table: Some(BookmarkTable { columns: columns(&["name", "node_id"]), rows: vec![] }),
    };
    assert!(store.ensure_schema().is_ok());
    let once = store.table.as_ref().unwrap().columns.clone();
    assert!(store.ensure_schema().is_ok());
    assert_eq!(store.table.as_ref().unwrap().columns, once);
    assert_eq!(once, columns(&["name", "node_id", "context"]));
}

#[test]
fn missing_table_fails_migration() {
    let mut store = Some(BookmarkStore { table: None });
    let err = list_bookmarks(&mut store).err().unwrap();
    assert!(matches!(err, StoreError::Migration(_)));
    let err = delete_bookmark(&mut store, "a").err().unwrap();
    assert!(matches!(err, StoreError::Migration(_)));
}

#[test]
fn delete_absent_name_keeps_rows() {
    let mut store = store_of(vec![row("a", "1", None), row("b", "2", None)]);
    assert!(delete_bookmark(&mut store, "x").is_ok());
    assert_eq!(rows_of(&store).len(), 2);
}

#[test]
fn delete_removes_named_row() {
    let mut store = store_of(vec![row("a", "1", None), row("b", "2", None)]);
    assert!(delete_bookmark(&mut store, "a").is_ok());
    let listed = list_bookmarks(&mut store).ok().unwrap();
    assert_eq!(listed.len(), 1);
    assert_eq!(listed[0].name, "b");
}

#[test]
fn delete_without_store_is_not_found() {
    let mut store: Option<BookmarkStore> = None;
    let err = delete_bookmark(&mut store, "a").err().unwrap();
    assert!(matches!(err, StoreError::NotFound));
    assert_eq!(err.message(), "Database not found");
}

#[test]
fn update_without_store_is_not_found() {
    let mut store: Option<BookmarkStore> = None;
    let err = update_bookmark_context(&mut store, "a", None).err().unwrap();
    assert!(matches!(err, StoreError::NotFound));
}

#[test]
fn clearing_context_reads_back_none() {
    let mut store = store_of(vec![row("x", "1", Some("note")), row("y", "2", Some("keep"))]);
    assert!(update_bookmark_context(&mut store, "x", None).is_ok());
    let listed = list_bookmarks(&mut store).ok().unwrap();
    assert_eq!(listed[0].name, "x");
    assert_eq!(listed[0].context, None);
    assert_eq!(listed[1].context.as_deref(), Some("keep"));
}

#[test]
fn setting_context_reads_back() {
    let mut store = store_of(vec![row("x", "1", None)]);
    assert!(update_bookmark_context(&mut store, "x", text("later")).is_ok());
    assert!(update_bookmark_context(&mut store, "nobody", text("ignored")).is_ok());
    let listed = list_bookmarks(&mut store).ok().unwrap();
    assert_eq!(listed.len(), 1);
    assert_eq!(listed[0].context.as_deref(), Some("later"));
}
