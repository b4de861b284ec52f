//! The service layer: the five operations of the HTTP surface, each a single
//! statement against the store, plus the CORS headers every response carries.
//! The handlers take the store and plain values; the HTTP server around the
//! library parses requests into payloads and writes the returned bodies back.

use vstd::prelude::*;
use crate::json::{encode_list, encode_todo, spec_encode_list, spec_encode_todo};
use crate::store::{spec_delete, TodoStore};
use crate::todo::{Todo, TodoPayload, TodoView};

verus! {

/// Why an update-completion request is rejected.
#[derive(Debug, PartialEq, Eq, Structural)]
pub enum PatchError {
    /// The payload carried no `id`: a caller contract violation.
    MissingId,
}

/// List: the whole table, ordered by ascending id, as a JSON array.
pub fn todos_get(db: &TodoStore) -> (r: String)
    requires
        db.wf(),
    ensures
        r@ == spec_encode_list(db@),
{
    let todos = db.list();
    proof {
        assert forall|i: int| 0 <= i < todos@.len() implies #[trigger] todos@[i]@.id >= 0 by {
            assert(crate::todo::todos_view(todos@)[i] == todos@[i]@);
            assert(crate::todo::todos_view(todos@)[i] == db@[i]);
        }
    }
    encode_list(&todos)
}

/// Create: insert a row named by the payload. The store assigns the id and
/// fixes `is_complete` to false — whatever the payload claimed — and the
/// persisted row is returned.
pub fn todos_post(db: &mut TodoStore, todo: TodoPayload) -> (r: Todo)
    requires
        old(db).wf(),
        old(db).next_id_spec() < i64::MAX,
    ensures
        final(db).wf(),
        r@.id == old(db).next_id_spec(),
        r@.name == todo@.name,
        r@.is_complete == false,
        final(db)@ == old(db)@.push(r@),
        final(db).next_id_spec() == old(db).next_id_spec() + 1,
        forall|i: int| 0 <= i < old(db)@.len() ==> #[trigger] old(db)@[i].id < r@.id,
{
    db.create(todo.name)
}

/// Delete: remove the row with the given id. A non-existent id affects zero
/// rows and is reported as success all the same.
pub fn todos_delete(db: &mut TodoStore, id: i64)
    requires
        old(db).wf(),
    ensures
        final(db).wf(),
        final(db)@ == spec_delete(old(db)@, id as int),
        final(db).next_id_spec() == old(db).next_id_spec(),
{
    db.delete(id);
}

/// Update-completion: set `is_complete` on the row the payload names; its
/// name and every other row are untouched. A payload without an id is
/// rejected before the store is touched.
pub fn todos_patch(db: &mut TodoStore, todo: TodoPayload) -> (r: Result<(), PatchError>)
    requires
        old(db).wf(),
    ensures
        final(db).wf(),
        todo@.id is None ==> r == Err::<(), PatchError>(PatchError::MissingId) && *final(db)
            == *old(db),
        todo@.id is Some ==> {
            &&& r == Ok::<(), PatchError>(())
            &&& final(db)@.len() == old(db)@.len()
            &&& final(db).next_id_spec() == old(db).next_id_spec()
            &&& forall|i: int|
                0 <= i < old(db)@.len() && old(db)@[i].id == todo@.id->0
                    ==> #[trigger] final(db)@[i] == (TodoView {
                    is_complete: todo@.is_complete,
                    ..old(db)@[i]
                })
            &&& forall|i: int|
                0 <= i < old(db)@.len() && old(db)@[i].id != todo@.id->0
                    ==> #[trigger] final(db)@[i] == old(db)@[i]
        },
{
    match todo.id {
        None => Err(PatchError::MissingId),
        Some(id) => {
            db.update_completion(id, todo.is_complete);
            Ok(())
        },
    }
}

/// CORS preflight: an empty response; the CORS headers come from `CORS`.
pub fn options_preflight() -> (r: String)
    ensures
        r@ == Seq::<char>::empty(),
{
    String::new()
}

/// A response under construction: its headers, name before value, and body.
pub struct Response {
    pub headers: Vec<(String, String)>,
    pub body: String,
}

/// The fixed permissive CORS policy every response is annotated with.
pub struct CORS;

impl CORS {
    /// What this header pass is for, by name.
    pub fn info(&self) -> (r: String)
        ensures
            r@ == "Add CORS headers to responses"@,
    {
        String::from_str("Add CORS headers to responses")
    }

    /// Append the three fixed CORS headers to the response: any origin, the
    /// allowed methods, the allowed request headers. Nothing else changes.
    pub fn on_response(&self, response: &mut Response)
        ensures
            final(response).body == old(response).body,
            final(response).headers@.len() == old(response).headers@.len() + 3,
            forall|i: int|
                0 <= i < old(response).headers@.len() ==> #[trigger] final(response).headers@[i]
                    == old(response).headers@[i],
            final(response).headers@[old(response).headers@.len() as int].0@
                == "Access-Control-Allow-Origin"@,
            final(response).headers@[old(response).headers@.len() as int].1@ == "*"@,
            final(response).headers@[old(response).headers@.len() + 1int].0@
                == "Access-Control-Allow-Methods"@,
            final(response).headers@[old(response).headers@.len() + 1int].1@
                == "POST, GET, OPTIONS, PATCH, PUT, DELETE"@,
            final(response).headers@[old(response).headers@.len() + 2int].0@
                == "Access-Control-Allow-Headers"@,
            final(response).headers@[old(response).headers@.len() + 2int].1@ == "Content-Type"@,
    {
        response.headers.push(
            (String::from_str("Access-Control-Allow-Origin"), String::from_str("*")),
        );
        response.headers.push(
            (
                String::from_str("Access-Control-Allow-Methods"),
                String::from_str("POST, GET, OPTIONS, PATCH, PUT, DELETE"),
            ),
        );
        response.headers.push(
            (String::from_str("Access-Control-Allow-Headers"), String::from_str("Content-Type")),
        );
    }
}

/// The response body of a successful create: the persisted row as JSON.
pub fn todo_response_body(t: &Todo) -> (r: String)
    requires
        t@.id >= 0,
    ensures
        r@ == spec_encode_todo(t@),
{
    encode_todo(t)
}

} // verus!
