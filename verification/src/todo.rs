//! The todo entity and the wire payload, with their mathematical views.

use vstd::prelude::*;

verus! {

/// Mathematical model of one persisted row: an id, a name, a completion flag.
pub ghost struct TodoView {
    pub id: int,
    pub name: Seq<char>,
    pub is_complete: bool,
}

/// One persisted todo row. `id` is server-assigned and immutable; `name` is
/// user-supplied text with no content constraint; `is_complete` starts false.
pub struct Todo {
    pub id: i64,
    pub name: String,
    pub is_complete: bool,
}

impl View for Todo {
    type V = TodoView;

    open spec fn view(&self) -> TodoView {
        TodoView { id: self.id as int, name: self.name@, is_complete: self.is_complete }
    }
}

impl Todo {
    /// An exact copy of the row.
    pub fn duplicate(&self) -> (r: Todo)
        ensures
            r@ == self@,
    {
        Todo { id: self.id, name: self.name.clone(), is_complete: self.is_complete }
    }
}

/// Mathematical model of a client-submitted payload, where `id` may be absent.
pub ghost struct TodoPayloadView {
    pub id: Option<int>,
    pub name: Seq<char>,
    pub is_complete: bool,
}

/// A todo-shaped wire payload: `id` is absent on creation payloads and
/// required on update-completion payloads.
pub struct TodoPayload {
    pub id: Option<i64>,
    pub name: String,
    pub is_complete: bool,
}

impl View for TodoPayload {
    type V = TodoPayloadView;

    open spec fn view(&self) -> TodoPayloadView {
        TodoPayloadView {
            id: match self.id {
                Some(i) => Some(i as int),
                None => None,
            },
            name: self.name@,
            is_complete: self.is_complete,
        }
    }
}

/// The view of a vector of rows: the sequence of their models.
pub open spec fn todos_view(v: Seq<Todo>) -> Seq<TodoView> {
    v.map_values(|t: Todo| t@)
}

} // verus!
