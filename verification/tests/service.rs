use todo_list::service::{
    options_preflight, todo_response_body, todos_delete, todos_get, todos_patch, todos_post,
    PatchError, Response, CORS,
};
use todo_list::store::TodoStore;
use todo_list::todo::TodoPayload;

fn payload(id: Option<i64>, name: &str, is_complete: bool) -> TodoPayload {
    TodoPayload { id, name: name.to_string(), is_complete }
}

#[test]
fn end_to_end_single_todo() {
    let mut db = TodoStore::new();
    assert!(db.can_assign_id());

    let created = todos_post(&mut db, payload(None, "buy milk", false));
    assert_eq!(created.id, 1);
    assert_eq!(created.name, "buy milk");
    assert_eq!(created.is_complete, false);
    assert_eq!(
        todo_response_body(&created),
        "{\"id\":1,\"name\":\"buy milk\",\"is_complete\":false}"
    );
    assert_eq!(
        todos_get(&db),
        "[{\"id\":1,\"name\":\"buy milk\",\"is_complete\":false}]"
    );

    let patched = todos_patch(&mut db, payload(Some(1), "buy milk", true));
    assert_eq!(patched, Ok(()));
    assert_eq!(
        todos_get(&db),
        "[{\"id\":1,\"name\":\"buy milk\",\"is_complete\":true}]"
    );

    todos_delete(&mut db, 1);
    assert_eq!(todos_get(&db), "[]");
}

#[test]
fn create_ids_strictly_increase_and_are_unique() {
    let mut db = TodoStore::new();
    let a = todos_post(&mut db, payload(None, "a", false));
    let b = todos_post(&mut db, payload(None, "b", false));
    let c = todos_post(&mut db, payload(None, "c", false));
    todos_delete(&mut db, b.id);
    let d = todos_post(&mut db, payload(None, "d", false));
    let ids = vec![a.id, b.id, c.id, d.id];
    assert_eq!(ids, vec![1, 2, 3, 4]);
    for i in 0..ids.len() {
        for j in i + 1..ids.len() {
            assert!(ids[i] < ids[j]);
        }
    }
}

#[test]
fn deleted_id_is_never_reused() {
    let mut db = TodoStore::new();
    let a = todos_post(&mut db, payload(None, "first", false));
    todos_delete(&mut db, a.id);
    assert_eq!(todos_get(&db), "[]");
    let b = todos_post(&mut db, payload(None, "second", false));
    assert_ne!(a.id, b.id);
    assert_eq!(b.id, 2);
}

#[test]
fn list_is_ordered_by_ascending_id() {
    let mut db = TodoStore::new();
    for name in ["one", "two", "three", "four"] {
        todos_post(&mut db, payload(None, name, false));
    }
    let _ = todos_patch(&mut db, payload(Some(3), "three", true));
    let _ = todos_patch(&mut db, payload(Some(1), "one", true));
    todos_delete(&mut db, 2);
    let rows = db.list();
    let ids: Vec<i64> = rows.iter().map(|t| t.id).collect();
    assert_eq!(ids, vec![1, 3, 4]);
    for w in ids.windows(2) {
        assert!(w[0] < w[1]);
    }
}

#[test]
fn create_ignores_client_supplied_is_complete() {
    let mut db = TodoStore::new();
    let created = todos_post(&mut db, payload(None, "sneaky", true));
    assert_eq!(created.is_complete, false);
    assert_eq!(
        todos_get(&db),
        "[{\"id\":1,\"name\":\"sneaky\",\"is_complete\":false}]"
    );
}

#[test]
fn patch_changes_only_is_complete() {
    let mut db = TodoStore::new();
    todos_post(&mut db, payload(None, "keep my name", false));
    todos_post(&mut db, payload(None, "untouched", false));
    let r = todos_patch(&mut db, payload(Some(1), "a different name", true));
    assert_eq!(r, Ok(()));
    let rows = db.list();
    assert_eq!(rows.len(), 2);
    assert_eq!(rows[0].id, 1);
    assert_eq!(rows[0].name, "keep my name");
    assert_eq!(rows[0].is_complete, true);
    assert_eq!(rows[1].id, 2);
    assert_eq!(rows[1].name, "untouched");
    assert_eq!(rows[1].is_complete, false);
}

#[test]
fn patch_toggles_back_and_forth() {
    let mut db = TodoStore::new();
    todos_post(&mut db, payload(None, "t", false));
    let _ = todos_patch(&mut db, payload(Some(1), "t", true));
    let _ = todos_patch(&mut db, payload(Some(1), "t", false));
    assert_eq!(todos_get(&db), "[{\"id\":1,\"name\":\"t\",\"is_complete\":false}]");
}

#[test]
fn delete_nonexistent_id_is_a_silent_no_op() {
    let mut db = TodoStore::new();
    todos_post(&mut db, payload(None, "stays", false));
    let before = todos_get(&db);
    todos_delete(&mut db, 42);
    assert_eq!(todos_get(&db), before);
}

#[test]
fn delete_on_empty_store_is_fine() {
    let mut db = TodoStore::new();
    todos_delete(&mut db, 7);
    assert_eq!(todos_get(&db), "[]");
}

#[test]
fn patch_without_id_fails_before_touching_the_store() {
    let mut db = TodoStore::new();
    todos_post(&mut db, payload(None, "unchanged", false));
    let before = todos_get(&db);
    let r = todos_patch(&mut db, payload(None, "unchanged", true));
    assert_eq!(r, Err(PatchError::MissingId));
    assert_eq!(todos_get(&db), before);
}

#[test]
fn duplicate_names_make_two_rows_with_distinct_ids() {
    let mut db = TodoStore::new();
    let a = todos_post(&mut db, payload(None, "buy milk", false));
    let b = todos_post(&mut db, payload(None, "buy milk", false));
    assert_ne!(a.id, b.id);
    assert_eq!(
        todos_get(&db),
        "[{\"id\":1,\"name\":\"buy milk\",\"is_complete\":false},{\"id\":2,\"name\":\"buy milk\",\"is_complete\":false}]"
    );
}

#[test]
fn preflight_response_is_empty() {
    assert_eq!(options_preflight(), "");
}

#[test]
fn cors_headers_are_the_three_fixed_ones() {
    let cors = CORS;
    assert_eq!(cors.info(), "Add CORS headers to responses");
    let mut response = Response { headers: Vec::new(), body: "body".to_string() };
    cors.on_response(&mut response);
    assert_eq!(response.body, "body");
    assert_eq!(response.headers.len(), 3);
    assert_eq!(response.headers[0].0, "Access-Control-Allow-Origin");
    assert_eq!(response.headers[0].1, "*");
    assert_eq!(response.headers[1].0, "Access-Control-Allow-Methods");
    assert_eq!(response.headers[1].1, "POST, GET, OPTIONS, PATCH, PUT, DELETE");
    assert_eq!(response.headers[2].0, "Access-Control-Allow-Headers");
    assert_eq!(response.headers[2].1, "Content-Type");
    cors.on_response(&mut response);
    assert_eq!(response.headers.len(), 6);
}
