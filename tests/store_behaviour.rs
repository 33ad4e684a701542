use todo_service::store::{StoreError, TodoStore};

fn listed(store: &TodoStore) -> Vec<(u32, String)> {
    store
        .list_entries()
        .into_iter()
        .map(|e| (e.id, e.text))
        .collect()
}

#[test]
fn fresh_store_is_empty() {
    let store = TodoStore::new();
    assert!(store.list_entries().is_empty());
}

#[test]
fn insert_then_list_round_trip() {
    let mut store = TodoStore::new();
    assert_eq!(store.insert_entry("Buy milk".to_string()), Ok(()));
    assert_eq!(listed(&store), vec![(1, "Buy milk".to_string())]);
    assert_eq!(store.insert_entry("".to_string()), Ok(()));
    assert_eq!(
        listed(&store),
        vec![(1, "Buy milk".to_string()), (2, "".to_string())]
    );
}

#[test]
fn delete_absent_id_changes_nothing() {
    let mut store = TodoStore::new();
    store.insert_entry("a".to_string()).unwrap();
    let before = listed(&store);
    assert_eq!(store.delete_entry(99), Ok(()));
    assert_eq!(listed(&store), before);
    let mut empty = TodoStore::new();
    assert_eq!(empty.delete_entry(1), Ok(()));
    assert!(empty.list_entries().is_empty());
}

#[test]
fn delete_then_list_leaves_the_other() {
    let mut store = TodoStore::new();
    store.insert_entry("A".to_string()).unwrap();
    store.insert_entry("B".to_string()).unwrap();
    let a_id = listed(&store)[0].0;
    assert_eq!(store.delete_entry(a_id), Ok(()));
    assert_eq!(listed(&store), vec![(2, "B".to_string())]);
}

#[test]
fn ids_are_not_reused_after_delete() {
    let mut store = TodoStore::new();
    store.insert_entry("A".to_string()).unwrap();
    store.insert_entry("B".to_string()).unwrap();
    store.delete_entry(2).unwrap();
    store.insert_entry("C".to_string()).unwrap();
    assert_eq!(
        listed(&store),
        vec![(1, "A".to_string()), (3, "C".to_string())]
    );
}

#[test]
fn many_inserts_get_distinct_ids() {
    let mut store = TodoStore::new();
    let n: u32 = 50;
    for k in 0..n {
        assert_eq!(store.insert_entry(format!("item {}", k)), Ok(()));
    }
    let all = listed(&store);
    assert_eq!(all.len(), n as usize);
    let mut ids: Vec<u32> = all.iter().map(|e| e.0).collect();
    ids.sort();
    ids.dedup();
    assert_eq!(ids.len(), n as usize);
    for (k, e) in all.iter().enumerate() {
        assert_eq!(e.1, format!("item {}", k));
    }
}

#[test]
fn store_error_kinds_differ() {
    assert_ne!(StoreError::Pool, StoreError::Query);
}
