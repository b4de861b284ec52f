//! The todo store: the one table `todos(id, name, is_complete)` with an
//! auto-incrementing identity key, modelled as a sequence of rows ordered by
//! ascending id, plus the next id the store will assign.

use vstd::prelude::*;
use crate::todo::{Todo, TodoView, todos_view};

verus! {

/// Rows are strictly ascending by id: the listing order, and uniqueness.
pub open spec fn sorted_by_id(s: Seq<TodoView>) -> bool {
    forall|i: int, j: int| 0 <= i < j < s.len() ==> s[i].id < s[j].id
}

/// What deleting an id leaves behind: every row whose id differs, in order.
pub open spec fn spec_delete(s: Seq<TodoView>, id: int) -> Seq<TodoView>
    decreases s.len(),
{
    if s.len() == 0 {
        Seq::empty()
    } else if s.last().id == id {
        spec_delete(s.drop_last(), id)
    } else {
        spec_delete(s.drop_last(), id).push(s.last())
    }
}

/// What update-completion leaves: `is_complete` set on the rows with the id,
/// every other column and every other row untouched.
pub open spec fn spec_update(s: Seq<TodoView>, id: int, is_complete: bool) -> Seq<TodoView> {
    Seq::new(
        s.len(),
        |i: int|
            if s[i].id == id {
                TodoView { is_complete, ..s[i] }
            } else {
                s[i]
            },
    )
}

/// Durable storage of the todo table. The store hands out ids itself, the way
/// the database's identity column does: `next_id` starts at 1 and moves only
/// forward, so ids are unique for the store's whole life, not merely among
/// the rows currently present.
pub struct TodoStore {
    todos: Vec<Todo>,
    next_id: i64,
}

impl TodoStore {
    /// The rows, in storage order.
    pub closed spec fn view(&self) -> Seq<TodoView> {
        todos_view(self.todos@)
    }

    /// The id the next create will assign.
    pub closed spec fn next_id_spec(&self) -> int {
        self.next_id as int
    }

    /// Well-formedness: ids are at least 1, strictly ascending in storage
    /// order, and all below the next id to be assigned.
    pub open spec fn wf(&self) -> bool {
        &&& 1 <= self.next_id_spec()
        &&& sorted_by_id(self@)
        &&& forall|i: int| 0 <= i < self@.len() ==> 1 <= #[trigger] self@[i].id < self.next_id_spec()
    }

    /// An empty store; the first id assigned will be 1.
    pub fn new() -> (s: TodoStore)
        ensures
            s.wf(),
            s@ == Seq::<TodoView>::empty(),
            s.next_id_spec() == 1,
    {
        let s = TodoStore { todos: Vec::new(), next_id: 1 };
        proof {
            assert(s@ =~= Seq::<TodoView>::empty());
        }
        s
    }

    /// Whether the identity column can still assign an id.
    pub fn can_assign_id(&self) -> (r: bool)
        ensures
            r == (self.next_id_spec() < i64::MAX),
    {
        self.next_id < i64::MAX
    }

    /// The whole table, ordered by ascending id.
    pub fn list(&self) -> (r: Vec<Todo>)
        requires
            self.wf(),
        ensures
            todos_view(r@) == self@,
            sorted_by_id(todos_view(r@)),
    {
        let mut out: Vec<Todo> = Vec::new();
        let n = self.todos.len();
        for i in 0..n
            invariant
                n == self.todos.len(),
                out@.len() == i,
                forall|k: int| 0 <= k < i ==> #[trigger] out@[k]@ == self.todos@[k]@,
        {
            out.push(self.todos[i].duplicate());
        }
        proof {
            assert(todos_view(out@) =~= self@);
        }
        out
    }

    /// Insert a new row. The store assigns the id — the old `next_id` — and
    /// fixes `is_complete` to false; the returned row is the persisted one.
    pub fn create(&mut self, name: String) -> (t: Todo)
        requires
            old(self).wf(),
            old(self).next_id_spec() < i64::MAX,
        ensures
            final(self).wf(),
            t@.id == old(self).next_id_spec(),
            t@.name == name@,
            t@.is_complete == false,
            final(self)@ == old(self)@.push(t@),
            final(self).next_id_spec() == old(self).next_id_spec() + 1,
            forall|i: int| 0 <= i < old(self)@.len() ==> #[trigger] old(self)@[i].id < t@.id,
    {
        let id = self.next_id;
        let t = Todo { id, name, is_complete: false };
        let r = t.duplicate();
        self.todos.push(t);
        self.next_id = id + 1;
        proof {
            assert(self@ =~= old(self)@.push(r@));
        }
        r
    }

    /// Remove every row with the given id. A non-existent id affects zero
    /// rows and is not an error.
    pub fn delete(&mut self, id: i64)
        requires
            old(self).wf(),
        ensures
            final(self).wf(),
            final(self)@ == spec_delete(old(self)@, id as int),
            final(self).next_id_spec() == old(self).next_id_spec(),
    {
        let ghost pre = self@;
        let mut out: Vec<Todo> = Vec::new();
        let n = self.todos.len();
        for i in 0..n
            invariant
                self.wf(),
                pre == self@,
                n == self.todos.len(),
                todos_view(out@) == spec_delete(pre.take(i as int), id as int),
        {
            proof {
                assert(pre.take(i + 1).drop_last() =~= pre.take(i as int));
                assert(pre.take(i + 1).last() == pre[i as int]);
            }
            if self.todos[i].id != id {
                out.push(self.todos[i].duplicate());
            }
            proof {
                assert(todos_view(out@) =~= spec_delete(pre.take(i + 1), id as int));
            }
        }
        proof {
            assert(pre.take(n as int) =~= pre);
        }
        self.todos = out;
        proof {
            lemma_delete_keeps_wf(pre, id as int, self.next_id as int);
        }
    }

    /// Set `is_complete` on every row with the given id; every other column
    /// of every row is untouched.
    pub fn update_completion(&mut self, id: i64, is_complete: bool)
        requires
            old(self).wf(),
        ensures
            final(self).wf(),
            final(self)@ == spec_update(old(self)@, id as int, is_complete),
            final(self)@.len() == old(self)@.len(),
            final(self).next_id_spec() == old(self).next_id_spec(),
            forall|i: int|
                0 <= i < old(self)@.len() && old(self)@[i].id == id as int
                    ==> #[trigger] final(self)@[i] == (TodoView {
                    is_complete,
                    ..old(self)@[i]
                }),
            forall|i: int|
                0 <= i < old(self)@.len() && old(self)@[i].id != id as int
                    ==> #[trigger] final(self)@[i] == old(self)@[i],
    {
        let ghost pre = self@;
        let mut out: Vec<Todo> = Vec::new();
        let n = self.todos.len();
        for i in 0..n
            invariant
                self.wf(),
                pre == self@,
                n == self.todos.len(),
                out@.len() == i,
                forall|k: int|
                    0 <= k < i ==> #[trigger] out@[k]@ == (if pre[k].id == id as int {
                        TodoView { is_complete, ..pre[k] }
                    } else {
                        pre[k]
                    }),
        {
            let row = &self.todos[i];
            if row.id == id {
                out.push(Todo { id: row.id, name: row.name.clone(), is_complete });
            } else {
                out.push(row.duplicate());
            }
        }
        self.todos = out;
        proof {
            assert forall|k: int| 0 <= k < pre.len() implies #[trigger] self@[k] == (if pre[k].id
                == id as int {
                TodoView { is_complete, ..pre[k] }
            } else {
                pre[k]
            }) by {
                assert(self@[k] == out@[k]@);
            }
            assert(self@ =~= spec_update(pre, id as int, is_complete));
        }
    }
}

/// Deleting rows keeps the store well formed: the surviving rows are a
/// subsequence, so they stay sorted and below the next id.
pub proof fn lemma_delete_keeps_wf(s: Seq<TodoView>, id: int, next_id: int)
    requires
        sorted_by_id(s),
        forall|i: int| 0 <= i < s.len() ==> 1 <= #[trigger] s[i].id < next_id,
    ensures
        sorted_by_id(spec_delete(s, id)),
        forall|i: int|
            0 <= i < spec_delete(s, id).len() ==> 1 <= #[trigger] spec_delete(s, id)[i].id
                < next_id,
        forall|i: int|
            0 <= i < spec_delete(s, id).len() ==> #[trigger] spec_delete(s, id)[i].id != id,
        forall|i: int|
            0 <= i < spec_delete(s, id).len() ==> exists|j: int|
                0 <= j < s.len() && #[trigger] spec_delete(s, id)[i] == s[j],
    decreases s.len(),
{
    if s.len() > 0 {
        lemma_delete_keeps_wf(s.drop_last(), id, next_id);
        let rest = spec_delete(s.drop_last(), id);
        if s.last().id != id {
            let out = rest.push(s.last());
            assert forall|i: int, j: int| 0 <= i < j < out.len() implies out[i].id
                < out[j].id by {
                if j < out.len() - 1 {
                    assert(rest[i].id < rest[j].id);
                } else {
                    let k = choose|k: int| 0 <= k < s.drop_last().len() && out[i] == s.drop_last()[k];
                    assert(s[k] == s.drop_last()[k]);
                    assert(s[k].id < s[s.len() - 1].id);
                }
            }
            assert forall|i: int| 0 <= i < out.len() implies exists|j: int|
                0 <= j < s.len() && #[trigger] out[i] == s[j] by {
                if i < out.len() - 1 {
                    let k = choose|k: int|
                        0 <= k < s.drop_last().len() && #[trigger] rest[i] == s.drop_last()[k];
                    assert(out[i] == s[k]);
                } else {
                    assert(out[i] == s[s.len() - 1]);
                }
            }
        } else {
            assert forall|i: int| 0 <= i < rest.len() implies exists|j: int|
                0 <= j < s.len() && #[trigger] rest[i] == s[j] by {
                let k = choose|k: int|
                    0 <= k < s.drop_last().len() && #[trigger] rest[i] == s.drop_last()[k];
                assert(rest[i] == s[k]);
            }
        }
    }
}

/// Law: a delete aimed at an id that no row holds leaves the table unchanged.
pub proof fn lemma_delete_absent_id_no_op(s: Seq<TodoView>, id: int)
    requires
        forall|i: int| 0 <= i < s.len() ==> #[trigger] s[i].id != id,
    ensures
        spec_delete(s, id) == s,
    decreases s.len(),
{
    if s.len() > 0 {
        assert(s.last() == s[s.len() - 1]);
        lemma_delete_absent_id_no_op(s.drop_last(), id);
        assert(spec_delete(s, id) =~= s);
    }
}

} // verus!
