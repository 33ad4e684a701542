use todo_service::entry::TodoEntry;
use todo_service::form::ClientInputError;
use todo_service::page::{render_index, PAGE_HEAD, PAGE_TAIL};
use todo_service::service::{
    client_error_response, handle, list_response, server_error_response, write_response,
    Request, Response, INVALID_ID_TEXT, LIST_PATH, NOT_A_FORM_TEXT, MISSING_FIELD_TEXT, SERVER_ERROR_TEXT,
};
use todo_service::store::{StoreError, TodoStore};

fn listed(store: &TodoStore) -> Vec<(u32, String)> {
    store
        .list_entries()
        .into_iter()
        .map(|e| (e.id, e.text))
        .collect()
}

fn is_redirect(r: &Response) -> bool {
    r.status == 303 && r.location.as_deref() == Some(LIST_PATH) && r.body.is_empty()
}

#[test]
fn index_of_fresh_store_is_empty_page() {
    let mut store = TodoStore::new();
    let r = handle(&mut store, &Request::Index);
    assert_eq!(r.status, 200);
    assert!(r.html);
    assert_eq!(r.location, None);
    assert_eq!(r.body, format!("{}{}", PAGE_HEAD, PAGE_TAIL));
}

#[test]
fn add_list_delete_scenario() {
    let mut store = TodoStore::new();
    let r = handle(&mut store, &Request::Add(b"text=Buy+milk".to_vec()));
    assert!(is_redirect(&r));
    let page = handle(&mut store, &Request::Index);
    assert_eq!(page.status, 200);
    assert!(page.body.contains("Buy milk"));
    let entries = listed(&store);
    assert_eq!(entries.len(), 1);
    assert_eq!(entries[0].1, "Buy milk");
    let id = entries[0].0;
    assert!(page.body.contains(&format!("value=\"{}\"", id)));
    let body = format!("id={}", id).into_bytes();
    let r = handle(&mut store, &Request::Delete(body));
    assert!(is_redirect(&r));
    let page = handle(&mut store, &Request::Index);
    assert_eq!(page.status, 200);
    assert!(!page.body.contains("Buy milk"));
    assert!(listed(&store).is_empty());
}

#[test]
fn delete_without_id_is_client_error() {
    let mut store = TodoStore::new();
    store.insert_entry("keep".to_string()).unwrap();
    let before = listed(&store);
    let r = handle(&mut store, &Request::Delete(b"text=keep".to_vec()));
    assert_eq!(r.status, 400);
    assert_eq!(r.body, MISSING_FIELD_TEXT);
    assert_eq!(listed(&store), before);
    let r = handle(&mut store, &Request::Delete(Vec::new()));
    assert_eq!(r.status, 400);
    assert_eq!(listed(&store), before);
}

#[test]
fn delete_with_bad_id_is_client_error() {
    let mut store = TodoStore::new();
    store.insert_entry("keep".to_string()).unwrap();
    let r = handle(&mut store, &Request::Delete(b"id=one".to_vec()));
    assert_eq!(r.status, 400);
    assert_eq!(r.body, INVALID_ID_TEXT);
    assert_eq!(listed(&store).len(), 1);
}

#[test]
fn add_without_text_is_client_error() {
    let mut store = TodoStore::new();
    let r = handle(&mut store, &Request::Add(b"title=x".to_vec()));
    assert_eq!(r.status, 400);
    assert!(listed(&store).is_empty());
}

#[test]
fn delete_of_unknown_id_redirects() {
    let mut store = TodoStore::new();
    store.insert_entry("a".to_string()).unwrap();
    let r = handle(&mut store, &Request::Delete(b"id=42".to_vec()));
    assert!(is_redirect(&r));
    assert_eq!(listed(&store), vec![(1, "a".to_string())]);
}

#[test]
fn store_failures_are_server_errors() {
    let r = list_response(Err(StoreError::Pool));
    assert_eq!(r.status, 500);
    assert_eq!(r.body, SERVER_ERROR_TEXT);
    assert!(!r.html);
    let r = write_response(Err(StoreError::Query));
    assert_eq!(r.status, 500);
    assert_eq!(r.location, None);
    let r = server_error_response();
    assert_eq!(r.status, 500);
}

#[test]
fn listed_entries_become_the_page() {
    let es = vec![TodoEntry::new(3, "x<y".to_string())];
    let expected = render_index(&es);
    let r = list_response(Ok(es));
    assert_eq!(r.status, 200);
    assert!(r.html);
    assert_eq!(r.body, expected);
    assert!(r.body.contains("x&lt;y"));
}

#[test]
fn successful_write_redirects_to_list() {
    let r = write_response(Ok(()));
    assert!(is_redirect(&r));
    assert!(!r.html);
}

#[test]
fn client_errors_are_bad_requests() {
    let r = client_error_response(ClientInputError::NotAForm);
    assert_eq!(r.status, 415);
    assert_eq!(r.body, NOT_A_FORM_TEXT);
    for e in [
        ClientInputError::MissingField,
        ClientInputError::DuplicateField,
        ClientInputError::InvalidId,
    ] {
        let r = client_error_response(e);
        assert_eq!(r.status, 400);
        assert_eq!(r.location, None);
        assert!(!r.body.is_empty());
    }
}

#[test]
fn empty_text_is_accepted() {
    let mut store = TodoStore::new();
    let r = handle(&mut store, &Request::Add(b"text=".to_vec()));
    assert!(is_redirect(&r));
    assert_eq!(listed(&store), vec![(1, "".to_string())]);
}

#[test]
fn deleting_twice_redirects_both_times() {
    let mut store = TodoStore::new();
    store.insert_entry("a".to_string()).unwrap();
    store.insert_entry("b".to_string()).unwrap();
    let r = handle(&mut store, &Request::Delete(b"id=1".to_vec()));
    assert!(is_redirect(&r));
    let after_first = listed(&store);
    assert_eq!(after_first, vec![(2, "b".to_string())]);
    let r = handle(&mut store, &Request::Delete(b"id=1".to_vec()));
    assert!(is_redirect(&r));
    assert_eq!(listed(&store), after_first);
}
