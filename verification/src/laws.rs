//! Laws of the service as a whole: what holds of every sequence of
//! operations, stated over the store's model and proved by induction on the
//! sequence. Each operation's effect here is exactly what the corresponding
//! store method's contract pins down.

use vstd::prelude::*;
use crate::store::{lemma_delete_keeps_wf, sorted_by_id, spec_delete, spec_update};
use crate::todo::TodoView;

verus! {

/// The store's model: the rows and the next id the store will assign.
pub ghost struct StoreModel {
    pub rows: Seq<TodoView>,
    pub next_id: int,
}

/// One mutating operation of the service.
pub ghost enum Op {
    Create { name: Seq<char> },
    Delete { id: int },
    UpdateCompletion { id: int, is_complete: bool },
}

/// Well-formedness of the model, as the store maintains it: the next id is at
/// least 1, rows are strictly ascending by id, and every id lies below the
/// next id.
pub open spec fn wf_model(m: StoreModel) -> bool {
    &&& 1 <= m.next_id
    &&& sorted_by_id(m.rows)
    &&& forall|i: int| 0 <= i < m.rows.len() ==> 1 <= #[trigger] m.rows[i].id < m.next_id
}

/// What one operation does to the model — the effect each store method's
/// contract states.
pub open spec fn apply(m: StoreModel, op: Op) -> StoreModel {
    match op {
        Op::Create { name } => StoreModel {
            rows: m.rows.push(TodoView { id: m.next_id, name, is_complete: false }),
            next_id: m.next_id + 1,
        },
        Op::Delete { id } => StoreModel { rows: spec_delete(m.rows, id), next_id: m.next_id },
        Op::UpdateCompletion { id, is_complete } => StoreModel {
            rows: spec_update(m.rows, id, is_complete),
            next_id: m.next_id,
        },
    }
}

/// The model after a whole sequence of operations, first one first.
pub open spec fn run(m: StoreModel, ops: Seq<Op>) -> StoreModel
    decreases ops.len(),
{
    if ops.len() == 0 {
        m
    } else {
        run(apply(m, ops.first()), ops.drop_first())
    }
}

/// The ids returned by the creates in a sequence of operations, in order: a
/// create returns the next id of the store it runs against.
pub open spec fn created_ids(m: StoreModel, ops: Seq<Op>) -> Seq<int>
    decreases ops.len(),
{
    if ops.len() == 0 {
        Seq::empty()
    } else if ops.first() is Create {
        seq![m.next_id] + created_ids(apply(m, ops.first()), ops.drop_first())
    } else {
        created_ids(apply(m, ops.first()), ops.drop_first())
    }
}

/// Strictly increasing, hence pairwise distinct.
pub open spec fn strictly_increasing(s: Seq<int>) -> bool {
    forall|i: int, j: int| 0 <= i < j < s.len() ==> s[i] < s[j]
}

/// One operation keeps the model well formed and never lowers the next id.
pub proof fn lemma_apply_preserves_wf(m: StoreModel, op: Op)
    requires
        wf_model(m),
    ensures
        wf_model(apply(m, op)),
        apply(m, op).next_id >= m.next_id,
{
    match op {
        Op::Create { name } => {
            let out = apply(m, op).rows;
            assert(out.last().id == m.next_id);
            assert(forall|i: int| 0 <= i < m.rows.len() ==> #[trigger] out[i] == m.rows[i]);
        },
        Op::Delete { id } => {
            lemma_delete_keeps_wf(m.rows, id, m.next_id);
        },
        Op::UpdateCompletion { id, is_complete } => {
            let out = apply(m, op).rows;
            assert(forall|i: int| 0 <= i < m.rows.len() ==> #[trigger] out[i].id == m.rows[i].id);
        },
    }
}

/// Law: every run of the service keeps the store well formed. In particular
/// the rows stay strictly ascending by id, whatever the order of inserts,
/// updates and deletes — so a list after any run comes out ordered by
/// ascending id. And the next id never moves backwards.
pub proof fn lemma_run_preserves_wf(m: StoreModel, ops: Seq<Op>)
    requires
        wf_model(m),
    ensures
        wf_model(run(m, ops)),
        sorted_by_id(run(m, ops).rows),
        run(m, ops).next_id >= m.next_id,
    decreases ops.len(),
{
    if ops.len() > 0 {
        lemma_apply_preserves_wf(m, ops.first());
        lemma_run_preserves_wf(apply(m, ops.first()), ops.drop_first());
    }
}

/// Law: over any sequence of operations on a well-formed store, the ids
/// returned by the creates are strictly increasing, and so unique: a create
/// returns the store's next id and raises it past the returned value, and no
/// other operation lowers it.
pub proof fn lemma_created_ids_strictly_increasing(m: StoreModel, ops: Seq<Op>)
    requires
        wf_model(m),
    ensures
        strictly_increasing(created_ids(m, ops)),
        forall|i: int, j: int|
            0 <= i < created_ids(m, ops).len() && 0 <= j < created_ids(m, ops).len() && i != j
                ==> created_ids(m, ops)[i] != created_ids(m, ops)[j],
        forall|i: int|
            0 <= i < created_ids(m, ops).len() ==> #[trigger] created_ids(m, ops)[i] >= m.next_id,
    decreases ops.len(),
{
    if ops.len() > 0 {
        let m1 = apply(m, ops.first());
        lemma_apply_preserves_wf(m, ops.first());
        lemma_created_ids_strictly_increasing(m1, ops.drop_first());
        let rest = created_ids(m1, ops.drop_first());
        if ops.first() is Create {
            let out = seq![m.next_id] + rest;
            assert(out[0] == m.next_id);
            assert(forall|i: int| 0 <= i < rest.len() ==> #[trigger] out[i + 1] == rest[i]);
            assert forall|i: int, j: int| 0 <= i < j < out.len() implies out[i] < out[j] by {
                if i > 0 {
                    assert(out[i] == rest[i - 1] && out[j] == rest[j - 1]);
                } else {
                    assert(out[j] == rest[j - 1] && rest[j - 1] >= m1.next_id);
                }
            }
        }
    }
}

/// Law: update-completion changes only `is_complete`. Every row keeps its id
/// and its name, the rows it does not aim at are untouched whole, and no row
/// appears or disappears.
pub proof fn lemma_update_changes_only_completion(s: Seq<TodoView>, id: int, is_complete: bool)
    ensures
        spec_update(s, id, is_complete).len() == s.len(),
        forall|i: int|
            0 <= i < s.len() ==> #[trigger] spec_update(s, id, is_complete)[i].id == s[i].id,
        forall|i: int|
            0 <= i < s.len() ==> #[trigger] spec_update(s, id, is_complete)[i].name == s[i].name,
        forall|i: int|
            0 <= i < s.len() && s[i].id != id ==> #[trigger] spec_update(s, id, is_complete)[i]
                == s[i],
        forall|i: int|
            0 <= i < s.len() && s[i].id == id ==> #[trigger] spec_update(
                s,
                id,
                is_complete,
            )[i].is_complete == is_complete,
{
}

} // verus!
