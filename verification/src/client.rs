//! The client side: a local mirror of the server's todo list, and the state
//! transition behind each user action. The UI event loop around the library
//! renders the mirror, calls one transition per action, and fires the network
//! request the transition hands back; responses come back in as plain values.

use vstd::prelude::*;
use crate::store::spec_delete;
use crate::todo::{Todo, TodoPayload, TodoPayloadView, TodoView, todos_view};

verus! {

/// No two rows share an id.
pub open spec fn unique_ids(s: Seq<TodoView>) -> bool {
    forall|i: int, j: int| 0 <= i < j < s.len() ==> s[i].id != s[j].id
}

/// The in-memory copy of the server's todo list used for rendering.
pub struct Mirror {
    todos: Vec<Todo>,
}

impl Mirror {
    /// The mirrored rows, in rendering order.
    pub closed spec fn view(&self) -> Seq<TodoView> {
        todos_view(self.todos@)
    }

    /// Well-formedness: ids are unique, as they are in every server list.
    pub open spec fn wf(&self) -> bool {
        unique_ids(self@)
    }

    /// An empty mirror, before the first load.
    pub fn new() -> (m: Mirror)
        ensures
            m.wf(),
            m@ == Seq::<TodoView>::empty(),
    {
        let m = Mirror { todos: Vec::new() };
        proof {
            assert(m@ =~= Seq::<TodoView>::empty());
        }
        m
    }

    /// Initial load: replace the mirror wholesale with the server's list.
    pub fn load(&mut self, list: Vec<Todo>)
        requires
            unique_ids(todos_view(list@)),
        ensures
            final(self).wf(),
            final(self)@ == todos_view(list@),
    {
        self.todos = list;
    }

    /// The rows to render, in order.
    pub fn render_list(&self) -> (r: Vec<Todo>)
        ensures
            todos_view(r@) == self@,
    {
        let mut out: Vec<Todo> = Vec::new();
        let n = self.todos.len();
        for i in 0..n
            invariant
                n == self.todos.len(),
                out@.len() == i,
                forall|k: int| 0 <= k < i ==> #[trigger] out@[k]@ == self.todos@[k]@,
        {
            out.push(self.todos[i].duplicate());
        }
        proof {
            assert(todos_view(out@) =~= self@);
        }
        out
    }

    /// The create path is not optimistic: the new row joins the mirror only
    /// here, once the server's response — the persisted row — has arrived.
    pub fn apply_created(&mut self, t: Todo)
        requires
            old(self).wf(),
            forall|i: int| 0 <= i < old(self)@.len() ==> #[trigger] old(self)@[i].id != t@.id,
        ensures
            final(self).wf(),
            final(self)@ == old(self)@.push(t@),
    {
        self.todos.push(t);
        proof {
            assert(self@ =~= old(self)@.push(t@));
        }
    }

    /// A delete click, applied optimistically: the rows with the id leave the
    /// mirror at once, before the Delete request is even sent.
    pub fn handle_todo_delete(&mut self, id: i64)
        ensures
            old(self).wf() ==> final(self).wf(),
            final(self)@ == spec_delete(old(self)@, id as int),
    {
        let ghost pre = self@;
        let mut out: Vec<Todo> = Vec::new();
        let n = self.todos.len();
        for i in 0..n
            invariant
                pre == self@,
                n == self.todos.len(),
                todos_view(out@) == spec_delete(pre.take(i as int), id as int),
        {
            proof {
                assert(pre.take(i + 1).drop_last() =~= pre.take(i as int));
                assert(pre.take(i + 1).last() == pre[i as int]);
            }
            if self.todos[i].id != id {
                out.push(self.todos[i].duplicate());
            }
            proof {
                assert(todos_view(out@) =~= spec_delete(pre.take(i + 1), id as int));
            }
        }
        proof {
            assert(pre.take(n as int) =~= pre);
        }
        self.todos = out;
        proof {
            lemma_delete_keeps_unique(pre, id as int);
        }
    }

    /// A toggle click, applied optimistically: `is_complete` flips in the
    /// mirror at once, and the flipped row comes back as the payload of the
    /// Update-completion request to fire. An id no row holds changes nothing
    /// and sends nothing.
    pub fn handle_todo_done_toggle(&mut self, id: i64) -> (r: Option<TodoPayload>)
        requires
            old(self).wf(),
        ensures
            final(self).wf(),
            final(self)@.len() == old(self)@.len(),
            forall|i: int|
                0 <= i < old(self)@.len() && old(self)@[i].id == id as int
                    ==> #[trigger] final(self)@[i] == (TodoView {
                    is_complete: !old(self)@[i].is_complete,
                    ..old(self)@[i]
                }),
            forall|i: int|
                0 <= i < old(self)@.len() && old(self)@[i].id != id as int
                    ==> #[trigger] final(self)@[i] == old(self)@[i],
            (exists|i: int| 0 <= i < old(self)@.len() && #[trigger] old(self)@[i].id == id as int)
                <==> r is Some,
            forall|i: int|
                0 <= i < old(self)@.len() && #[trigger] old(self)@[i].id == id as int ==> r is Some
                    && r->0@ == (TodoPayloadView {
                    id: Some(id as int),
                    name: old(self)@[i].name,
                    is_complete: !old(self)@[i].is_complete,
                }),
    {
        let ghost pre = self@;
        let mut out: Vec<Todo> = Vec::new();
        let mut todo_to_change: Option<TodoPayload> = None;
        let n = self.todos.len();
        for i in 0..n
            invariant
                self.wf(),
                pre == self@,
                n == self.todos.len(),
                out@.len() == i,
                forall|k: int|
                    0 <= k < i ==> #[trigger] out@[k]@ == (if pre[k].id == id as int {
                        TodoView { is_complete: !pre[k].is_complete, ..pre[k] }
                    } else {
                        pre[k]
                    }),
                (exists|k: int| 0 <= k < i && #[trigger] pre[k].id == id as int)
                    <==> todo_to_change is Some,
                forall|k: int|
                    0 <= k < i && #[trigger] pre[k].id == id as int ==> todo_to_change is Some
                        && todo_to_change->0@ == (TodoPayloadView {
                        id: Some(id as int),
                        name: pre[k].name,
                        is_complete: !pre[k].is_complete,
                    }),
        {
            proof {
                assert(pre[i as int] == self.todos@[i as int]@);
            }
            let row = &self.todos[i];
            if row.id == id {
                proof {
                    assert(pre[i as int].id == id as int);
                }
                let flipped = Todo {
                    id: row.id,
                    name: row.name.clone(),
                    is_complete: !row.is_complete,
                };
                todo_to_change = Some(
                    TodoPayload {
                        id: Some(flipped.id),
                        name: flipped.name.clone(),
                        is_complete: flipped.is_complete,
                    },
                );
                out.push(flipped);
            } else {
                proof {
                    assert(pre[i as int].id != id as int);
                }
                out.push(row.duplicate());
            }
        }
        self.todos = out;
        proof {
            assert forall|k: int| 0 <= k < pre.len() implies #[trigger] self@[k] == (if pre[k].id
                == id as int {
                TodoView { is_complete: !pre[k].is_complete, ..pre[k] }
            } else {
                pre[k]
            }) by {
                assert(self@[k] == out@[k]@);
            }
        }
        todo_to_change
    }

    /// The create box: an empty input sends nothing; anything else becomes a
    /// creation payload — no id, `is_complete` false — for a Create request.
    pub fn handle_todo_creation(input: &String) -> (r: Option<TodoPayload>)
        ensures
            input@.len() == 0 ==> r is None,
            input@.len() > 0 ==> r is Some && r->0@ == (TodoPayloadView {
                id: None,
                name: input@,
                is_complete: false,
            }),
    {
        if input.as_str().is_empty() {
            None
        } else {
            Some(TodoPayload { id: None, name: input.clone(), is_complete: false })
        }
    }
}

/// Deleting an id from a list of unique ids leaves the ids unique: every row
/// that survives stood in the list, and distinct survivors come from distinct
/// positions in it.
proof fn lemma_delete_keeps_unique(s: Seq<TodoView>, id: int)
    ensures
        unique_ids(s) ==> unique_ids(spec_delete(s, id)),
        forall|i: int|
            0 <= i < spec_delete(s, id).len() ==> exists|j: int|
                0 <= j < s.len() && #[trigger] spec_delete(s, id)[i] == s[j],
    decreases s.len(),
{
    if s.len() > 0 {
        lemma_delete_keeps_unique(s.drop_last(), id);
        let rest = spec_delete(s.drop_last(), id);
        assert forall|i: int| 0 <= i < rest.len() implies exists|j: int|
            0 <= j < s.len() && #[trigger] rest[i] == s[j] by {
            let k = choose|k: int|
                0 <= k < s.drop_last().len() && #[trigger] rest[i] == s.drop_last()[k];
            assert(rest[i] == s[k]);
        }
        if s.last().id != id && unique_ids(s) {
            let out = rest.push(s.last());
            assert(out[out.len() - 1] == s[s.len() - 1]);
            assert forall|i: int, j: int| 0 <= i < j < out.len() implies out[i].id
                != out[j].id by {
                if j < out.len() - 1 {
                    assert(rest[i].id == out[i].id && rest[j].id == out[j].id);
                } else {
                    let k = choose|k: int|
                        0 <= k < s.drop_last().len() && #[trigger] out[i] == s.drop_last()[k];
                    assert(s[k] == s.drop_last()[k]);
                    assert(out[i] == s[k] && out[j] == s[s.len() - 1]);
                }
            }
        }
    }
}

} // verus!
