use todo_list::client::Mirror;
use todo_list::todo::Todo;

fn todo(id: i64, name: &str, is_complete: bool) -> Todo {
    Todo { id, name: name.to_string(), is_complete }
}

#[test]
fn initial_load_replaces_the_mirror_wholesale() {
    let mut mirror = Mirror::new();
    mirror.apply_created(todo(9, "stale", false));
    mirror.load(vec![todo(1, "a", false), todo(2, "b", true)]);
    let rows = mirror.render_list();
    assert_eq!(rows.len(), 2);
    assert_eq!(rows[0].id, 1);
    assert_eq!(rows[1].id, 2);
}

#[test]
fn empty_input_sends_no_create_request() {
    assert!(Mirror::handle_todo_creation(&String::new()).is_none());
}

#[test]
fn nonempty_input_becomes_a_creation_payload() {
    let p = Mirror::handle_todo_creation(&"buy milk".to_string()).unwrap();
    assert_eq!(p.id, None);
    assert_eq!(p.name, "buy milk");
    assert_eq!(p.is_complete, false);
}

#[test]
fn created_row_joins_the_mirror_only_after_the_response() {
    let mut mirror = Mirror::new();
    mirror.load(vec![todo(1, "a", false)]);
    mirror.apply_created(todo(2, "b", false));
    let rows = mirror.render_list();
    assert_eq!(rows.len(), 2);
    assert_eq!(rows[1].id, 2);
    assert_eq!(rows[1].name, "b");
}

#[test]
fn delete_is_applied_optimistically() {
    let mut mirror = Mirror::new();
    mirror.load(vec![todo(1, "a", false), todo(2, "b", false), todo(3, "c", false)]);
    mirror.handle_todo_delete(2);
    let rows = mirror.render_list();
    let ids: Vec<i64> = rows.iter().map(|t| t.id).collect();
    assert_eq!(ids, vec![1, 3]);
}

#[test]
fn delete_of_an_absent_id_changes_nothing() {
    let mut mirror = Mirror::new();
    mirror.load(vec![todo(1, "a", false)]);
    mirror.handle_todo_delete(5);
    assert_eq!(mirror.render_list().len(), 1);
}

#[test]
fn toggle_flips_the_mirror_and_yields_the_patch_payload() {
    let mut mirror = Mirror::new();
    mirror.load(vec![todo(1, "a", false), todo(2, "b", false)]);
    let sent = mirror.handle_todo_done_toggle(2).unwrap();
    assert_eq!(sent.id, Some(2));
    assert_eq!(sent.name, "b");
    assert_eq!(sent.is_complete, true);
    let rows = mirror.render_list();
    assert_eq!(rows[0].is_complete, false);
    assert_eq!(rows[1].is_complete, true);

    let sent_back = mirror.handle_todo_done_toggle(2).unwrap();
    assert_eq!(sent_back.is_complete, false);
    assert_eq!(mirror.render_list()[1].is_complete, false);
}

#[test]
fn toggle_of_an_absent_id_sends_nothing() {
    let mut mirror = Mirror::new();
    mirror.load(vec![todo(1, "a", false)]);
    assert!(mirror.handle_todo_done_toggle(9).is_none());
    assert_eq!(mirror.render_list().len(), 1);
    assert_eq!(mirror.render_list()[0].is_complete, false);
}
