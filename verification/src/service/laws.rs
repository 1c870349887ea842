//! Session-level laws, proved once and for all over the session model:
//! the id-freshness invariant, the effect of undoing each single
//! mutation, the undo-then-redo round trips, and the empty-history
//! boundary cases.

use vstd::prelude::*;
use crate::model::priority::Priority;
use crate::model::task::TaskM;
use crate::model::todo_list::find_task;
use crate::model::todo_list::ids_bounded;
use crate::model::todo_list::lemma_add_fresh_id;
use crate::model::todo_list::lemma_find_task;
use crate::model::todo_list::StoreM;
use crate::numerals::hex_num;
use crate::numerals::hex_of;
use crate::numerals::is_hex_numeral;
use crate::numerals::lemma_hex_of_num;
use crate::service::actions::CmdM;
use crate::service::actions::UndoM;
use crate::service::manager::mgr_add;
use crate::service::manager::mgr_edit;
use crate::service::manager::mgr_redo;
use crate::service::manager::mgr_remove;
use crate::service::manager::mgr_toggle;
use crate::service::manager::mgr_undo;
use crate::service::manager::ManagerM;

verus! {

/// A task record respects the counter: its id is a hexadecimal numeral
/// whose value the counter strictly exceeds.
pub open spec fn task_ok(t: TaskM, next_id: nat) -> bool {
    is_hex_numeral(t.id) && hex_num(t.id) < next_id
}

/// An undo record respects the counter: every task snapshot it carries
/// does.
pub open spec fn undo_rec_ok(u: UndoM, next_id: nat) -> bool {
    match u {
        UndoM::AddTask { task } => task_ok(task, next_id),
        UndoM::CompleteTask { .. } => true,
        UndoM::RemoveTask { task } => task_ok(task, next_id),
        UndoM::EditTask { previous_task } => task_ok(previous_task, next_id),
    }
}

/// The session invariant behind id freshness: the counter strictly
/// exceeds every id in the store and every id snapshotted in either
/// history stack.
pub open spec fn mgr_wf(m: ManagerM) -> bool {
    &&& ids_bounded(m.store)
    &&& forall|i: int| 0 <= i < m.undo.len() ==> undo_rec_ok(
        (#[trigger] m.undo[i]).1,
        m.store.next_id,
    )
    &&& forall|i: int| 0 <= i < m.redo.len() ==> undo_rec_ok(
        (#[trigger] m.redo[i]).1,
        m.store.next_id,
    )
}

/// No two tasks of the store share an id.
pub open spec fn ids_distinct(tasks: Seq<TaskM>) -> bool {
    forall|i: int, j: int| 0 <= i < j < tasks.len() ==> (#[trigger] tasks[i]).id != (
    #[trigger] tasks[j]).id
}

/// A task record that respects the counter keeps doing so as the counter
/// grows.
proof fn lemma_undo_rec_ok_monotone(u: UndoM, n1: nat, n2: nat)
    requires
        undo_rec_ok(u, n1),
        n1 <= n2,
    ensures
        undo_rec_ok(u, n2),
{
}

/// The first id match is the same in two stores whose tasks carry the
/// same ids position by position.
pub proof fn lemma_find_same_ids(t1: Seq<TaskM>, t2: Seq<TaskM>, id: Seq<char>)
    requires
        t1.len() == t2.len(),
        forall|i: int| 0 <= i < t1.len() ==> (#[trigger] t1[i]).id == t2[i].id,
    ensures
        find_task(t1, id) == find_task(t2, id),
{
    lemma_find_task(t1, id);
    lemma_find_task(t2, id);
    let f1 = find_task(t1, id);
    let f2 = find_task(t2, id);
    if f1 == -1 {
        assert(forall|i: int| 0 <= i < t2.len() ==> (#[trigger] t2[i]).id != id);
    } else {
        assert(t2[f1].id == id);
        assert(f2 != -1);
        if f2 < f1 {
            assert(t1[f2].id == id);
            assert(false);
        }
        if f1 < f2 {
            assert(t2[f1].id != id);
            assert(false);
        }
    }
}

/// A fresh session satisfies the invariant.
pub proof fn lemma_initial_wf(file_name: Seq<char>)
    ensures
        mgr_wf(
            ManagerM {
                store: StoreM { tasks: Seq::empty(), next_id: 1, file_name },
                undo: Seq::empty(),
                redo: Seq::empty(),
            },
        ),
{
}

/// Adding preserves the invariant, advances the counter, and issues an
/// id that no task of the session held before: ids are never reused.
pub proof fn lemma_add_wf(m: ManagerM, description: Seq<char>, priority: Priority)
    requires
        mgr_wf(m),
    ensures
        mgr_wf(mgr_add(m, description, priority)),
        mgr_add(m, description, priority).store.next_id == m.store.next_id + 1,
        forall|i: int| 0 <= i < m.store.tasks.len() ==> (#[trigger] m.store.tasks[i]).id
            != hex_of(m.store.next_id),
{
    lemma_add_fresh_id(m.store, description, priority);
    lemma_hex_of_num(m.store.next_id);
    let m2 = mgr_add(m, description, priority);
    assert forall|i: int| 0 <= i < m2.undo.len() implies undo_rec_ok(
        (#[trigger] m2.undo[i]).1,
        m2.store.next_id,
    ) by {
        if i < m.undo.len() {
            assert(m2.undo[i] == m.undo[i]);
            lemma_undo_rec_ok_monotone(m.undo[i].1, m.store.next_id, m2.store.next_id);
        }
    }
}

/// Toggling a present task preserves the invariant and leaves the
/// counter alone.
pub proof fn lemma_toggle_wf(m: ManagerM, id: Seq<char>)
    requires
        mgr_wf(m),
        find_task(m.store.tasks, id) != -1,
    ensures
        mgr_wf(mgr_toggle(m, id)),
        mgr_toggle(m, id).store.next_id == m.store.next_id,
{
    lemma_find_task(m.store.tasks, id);
    let m2 = mgr_toggle(m, id);
    assert forall|i: int| 0 <= i < m2.store.tasks.len() implies is_hex_numeral(
        (#[trigger] m2.store.tasks[i]).id,
    ) && hex_num(m2.store.tasks[i].id) < m2.store.next_id by {
        assert(m2.store.tasks[i].id == m.store.tasks[i].id);
    }
}

/// Removing a present task preserves the invariant and leaves the
/// counter alone.
pub proof fn lemma_remove_wf(m: ManagerM, id: Seq<char>)
    requires
        mgr_wf(m),
        find_task(m.store.tasks, id) != -1,
    ensures
        mgr_wf(mgr_remove(m, id)),
        mgr_remove(m, id).store.next_id == m.store.next_id,
{
    lemma_find_task(m.store.tasks, id);
    let f = find_task(m.store.tasks, id);
    let m2 = mgr_remove(m, id);
    assert forall|i: int| 0 <= i < m2.store.tasks.len() implies is_hex_numeral(
        (#[trigger] m2.store.tasks[i]).id,
    ) && hex_num(m2.store.tasks[i].id) < m2.store.next_id by {
        if i < f {
            assert(m2.store.tasks[i] == m.store.tasks[i]);
        } else {
            assert(m2.store.tasks[i] == m.store.tasks[i + 1]);
        }
    }
}

/// Editing a present task preserves the invariant and leaves the counter
/// alone.
pub proof fn lemma_edit_wf(m: ManagerM, id: Seq<char>, description: Seq<char>, priority: Priority)
    requires
        mgr_wf(m),
        find_task(m.store.tasks, id) != -1,
    ensures
        mgr_wf(mgr_edit(m, id, description, priority)),
        mgr_edit(m, id, description, priority).store.next_id == m.store.next_id,
{
    lemma_find_task(m.store.tasks, id);
    let m2 = mgr_edit(m, id, description, priority);
    assert forall|i: int| 0 <= i < m2.store.tasks.len() implies is_hex_numeral(
        (#[trigger] m2.store.tasks[i]).id,
    ) && hex_num(m2.store.tasks[i].id) < m2.store.next_id by {
        assert(m2.store.tasks[i].id == m.store.tasks[i].id);
    }
}

/// Undoing preserves the invariant and leaves the counter alone.
pub proof fn lemma_undo_wf(m: ManagerM)
    requires
        mgr_wf(m),
    ensures
        mgr_wf(mgr_undo(m)),
        mgr_undo(m).store.next_id == m.store.next_id,
{
    let m2 = mgr_undo(m);
    if m.undo.len() > 0 {
        let (c, u) = m.undo.last();
        if crate::service::manager::undo_ok(u, m.store) {
            match u {
                UndoM::AddTask { task } => {
                    lemma_find_task(m.store.tasks, task.id);
                    let f = find_task(m.store.tasks, task.id);
                    assert forall|i: int| 0 <= i < m2.store.tasks.len() implies is_hex_numeral(
                        (#[trigger] m2.store.tasks[i]).id,
                    ) && hex_num(m2.store.tasks[i].id) < m2.store.next_id by {
                        if i < f {
                            assert(m2.store.tasks[i] == m.store.tasks[i]);
                        } else {
                            assert(m2.store.tasks[i] == m.store.tasks[i + 1]);
                        }
                    }
                },
                UndoM::CompleteTask { id, .. } => {
                    lemma_find_task(m.store.tasks, id);
                    assert forall|i: int| 0 <= i < m2.store.tasks.len() implies is_hex_numeral(
                        (#[trigger] m2.store.tasks[i]).id,
                    ) && hex_num(m2.store.tasks[i].id) < m2.store.next_id by {
                        assert(m2.store.tasks[i].id == m.store.tasks[i].id);
                    }
                },
                UndoM::RemoveTask { task } => {
                    assert(undo_rec_ok(u, m.store.next_id));
                    assert(task_ok(task, m.store.next_id));
                    assert forall|i: int| 0 <= i < m2.store.tasks.len() implies is_hex_numeral(
                        (#[trigger] m2.store.tasks[i]).id,
                    ) && hex_num(m2.store.tasks[i].id) < m2.store.next_id by {
                        if i < m.store.tasks.len() {
                            assert(m2.store.tasks[i] == m.store.tasks[i]);
                        } else {
                            assert(m2.store.tasks[i] == task);
                        }
                    }
                },
                UndoM::EditTask { previous_task } => {
                    lemma_find_task(m.store.tasks, previous_task.id);
                    assert forall|i: int| 0 <= i < m2.store.tasks.len() implies is_hex_numeral(
                        (#[trigger] m2.store.tasks[i]).id,
                    ) && hex_num(m2.store.tasks[i].id) < m2.store.next_id by {
                        assert(m2.store.tasks[i].id == m.store.tasks[i].id);
                    }
                },
            }
            assert forall|i: int| 0 <= i < m2.redo.len() implies undo_rec_ok(
                (#[trigger] m2.redo[i]).1,
                m2.store.next_id,
            ) by {
                if i < m.redo.len() {
                    assert(m2.redo[i] == m.redo[i]);
                } else {
                    assert(m2.redo[i] == (c, u));
                }
            }
        }
    }
}

/// Redoing preserves the invariant; the counter never shrinks.
pub proof fn lemma_redo_wf(m: ManagerM)
    requires
        mgr_wf(m),
    ensures
        mgr_wf(mgr_redo(m)),
        mgr_redo(m).store.next_id >= m.store.next_id,
{
    let m2 = mgr_redo(m);
    if m.redo.len() > 0 {
        let (c, u) = m.redo.last();
        if crate::service::actions::cmd_runnable(c, m.store) {
            match c {
                CmdM::AddTask { description, priority } => {
                    lemma_add_fresh_id(m.store, description, priority);
                    lemma_hex_of_num(m.store.next_id);
                },
                CmdM::RemoveTask { task } => {
                    lemma_find_task(m.store.tasks, task.id);
                    let f = find_task(m.store.tasks, task.id);
                    assert forall|i: int| 0 <= i < m2.store.tasks.len() implies is_hex_numeral(
                        (#[trigger] m2.store.tasks[i]).id,
                    ) && hex_num(m2.store.tasks[i].id) < m2.store.next_id by {
                        if i < f {
                            assert(m2.store.tasks[i] == m.store.tasks[i]);
                        } else {
                            assert(m2.store.tasks[i] == m.store.tasks[i + 1]);
                        }
                    }
                },
                CmdM::CompleteTask { id } => {
                    lemma_find_task(m.store.tasks, id);
                    assert forall|i: int| 0 <= i < m2.store.tasks.len() implies is_hex_numeral(
                        (#[trigger] m2.store.tasks[i]).id,
                    ) && hex_num(m2.store.tasks[i].id) < m2.store.next_id by {
                        assert(m2.store.tasks[i].id == m.store.tasks[i].id);
                    }
                },
                CmdM::EditTask { id, .. } => {
                    lemma_find_task(m.store.tasks, id);
                    assert forall|i: int| 0 <= i < m2.store.tasks.len() implies is_hex_numeral(
                        (#[trigger] m2.store.tasks[i]).id,
                    ) && hex_num(m2.store.tasks[i].id) < m2.store.next_id by {
                        assert(m2.store.tasks[i].id == m.store.tasks[i].id);
                    }
                },
            }
            assert forall|i: int| 0 <= i < m2.undo.len() implies undo_rec_ok(
                (#[trigger] m2.undo[i]).1,
                m2.store.next_id,
            ) by {
                if i < m.undo.len() {
                    assert(m2.undo[i] == m.undo[i]);
                    lemma_undo_rec_ok_monotone(m.undo[i].1, m.store.next_id, m2.store.next_id);
                } else {
                    assert(m2.undo[i] == (c, u));
                    lemma_undo_rec_ok_monotone(u, m.store.next_id, m2.store.next_id);
                }
            }
        }
    }
}

/// Undoing a just-added task restores the task collection exactly; only
/// the counter keeps its advanced value.
pub proof fn lemma_undo_of_add(m: ManagerM, description: Seq<char>, priority: Priority)
    requires
        ids_bounded(m.store),
    ensures
        mgr_undo(mgr_add(m, description, priority)).store.tasks == m.store.tasks,
        mgr_undo(mgr_add(m, description, priority)).store.next_id == m.store.next_id + 1,
        mgr_undo(mgr_add(m, description, priority)).store.file_name == m.store.file_name,
        mgr_undo(mgr_add(m, description, priority)).undo == m.undo,
{
    lemma_add_fresh_id(m.store, description, priority);
    let t_new = TaskM {
        id: hex_of(m.store.next_id),
        description,
        priority,
        completed: false,
    };
    let m1 = mgr_add(m, description, priority);
    let n = m.store.tasks.len() as int;
    assert(m1.store.tasks[n].id == t_new.id);
    lemma_find_task(m1.store.tasks, t_new.id);
    let f = find_task(m1.store.tasks, t_new.id);
    assert(f != -1);
    assert forall|j: int| 0 <= j < n implies (#[trigger] m1.store.tasks[j]).id != t_new.id by {
        assert(m1.store.tasks[j] == m.store.tasks[j]);
    }
    assert(f == n);
    assert(mgr_undo(m1).store.tasks =~= m.store.tasks);
    assert(mgr_undo(m1).undo =~= m.undo);
}

/// Undoing a just-toggled task restores the store exactly.
pub proof fn lemma_undo_of_toggle(m: ManagerM, id: Seq<char>)
    requires
        find_task(m.store.tasks, id) != -1,
    ensures
        mgr_undo(mgr_toggle(m, id)).store == m.store,
        mgr_undo(mgr_toggle(m, id)).undo == m.undo,
{
    lemma_find_task(m.store.tasks, id);
    let f = find_task(m.store.tasks, id);
    let m1 = mgr_toggle(m, id);
    lemma_find_same_ids(m1.store.tasks, m.store.tasks, id);
    assert(mgr_undo(m1).store.tasks =~= m.store.tasks);
    assert(mgr_undo(m1).store =~= m.store);
    assert(mgr_undo(m1).undo =~= m.undo);
}

/// Undoing a just-removed task restores the same collection of tasks,
/// but the restored task is re-appended at the end, not reinserted at
/// its original position: the order is not fully restored.
pub proof fn lemma_undo_of_remove(m: ManagerM, id: Seq<char>)
    requires
        find_task(m.store.tasks, id) != -1,
    ensures
        mgr_undo(mgr_remove(m, id)).store.tasks == m.store.tasks.remove(
            find_task(m.store.tasks, id),
        ).push(m.store.tasks[find_task(m.store.tasks, id)]),
        mgr_undo(mgr_remove(m, id)).store.tasks.to_multiset() == m.store.tasks.to_multiset(),
        mgr_undo(mgr_remove(m, id)).store.next_id == m.store.next_id,
        mgr_undo(mgr_remove(m, id)).undo == m.undo,
{
    broadcast use vstd::seq_lib::group_to_multiset_ensures;

    lemma_find_task(m.store.tasks, id);
    let f = find_task(m.store.tasks, id);
    let m1 = mgr_remove(m, id);
    assert(mgr_undo(m1).store.tasks == m.store.tasks.remove(f).push(m.store.tasks[f]));
    assert(m.store.tasks.remove(f).to_multiset() =~= m.store.tasks.to_multiset().remove(
        m.store.tasks[f],
    ));
    assert(m.store.tasks.to_multiset().count(m.store.tasks[f]) > 0) by {
        assert(m.store.tasks.contains(m.store.tasks[f]));
    }
    assert(m.store.tasks.remove(f).push(m.store.tasks[f]).to_multiset()
        =~= m.store.tasks.to_multiset());
    assert(mgr_undo(m1).undo =~= m.undo);
}

/// Undoing a just-edited task restores the store exactly: the pre-edit
/// snapshot brings both fields back atomically.
pub proof fn lemma_undo_of_edit(m: ManagerM, id: Seq<char>, description: Seq<char>, priority: Priority)
    requires
        find_task(m.store.tasks, id) != -1,
    ensures
        mgr_undo(mgr_edit(m, id, description, priority)).store == m.store,
        mgr_undo(mgr_edit(m, id, description, priority)).undo == m.undo,
{
    lemma_find_task(m.store.tasks, id);
    let f = find_task(m.store.tasks, id);
    let m1 = mgr_edit(m, id, description, priority);
    lemma_find_same_ids(m1.store.tasks, m.store.tasks, m.store.tasks[f].id);
    assert(find_task(m1.store.tasks, m.store.tasks[f].id) == f) by {
        lemma_find_same_ids(m1.store.tasks, m.store.tasks, id);
    }
    assert(mgr_undo(m1).store.tasks =~= m.store.tasks);
    assert(mgr_undo(m1).store =~= m.store);
    assert(mgr_undo(m1).undo =~= m.undo);
}

/// Undo immediately followed by redo reproduces the session exactly as
/// it stood after the original toggle.
pub proof fn lemma_redo_of_toggle(m: ManagerM, id: Seq<char>)
    requires
        find_task(m.store.tasks, id) != -1,
    ensures
        mgr_redo(mgr_undo(mgr_toggle(m, id))) == mgr_toggle(m, id),
{
    lemma_find_task(m.store.tasks, id);
    lemma_undo_of_toggle(m, id);
    let m1 = mgr_toggle(m, id);
    let m2 = mgr_undo(m1);
    assert(m2.redo.len() == 1);
    assert(m2.redo.last() == m1.undo.last());
    assert(mgr_redo(m2).store =~= m1.store);
    assert(mgr_redo(m2).undo =~= m1.undo);
    assert(mgr_redo(m2).redo =~= m1.redo);
    assert(mgr_redo(m2) =~= m1);
}

/// Undo immediately followed by redo reproduces the session exactly as
/// it stood after the original removal, provided no two tasks share an
/// id.
pub proof fn lemma_redo_of_remove(m: ManagerM, id: Seq<char>)
    requires
        find_task(m.store.tasks, id) != -1,
        ids_distinct(m.store.tasks),
    ensures
        mgr_redo(mgr_undo(mgr_remove(m, id))) == mgr_remove(m, id),
{
    lemma_find_task(m.store.tasks, id);
    lemma_undo_of_remove(m, id);
    let f = find_task(m.store.tasks, id);
    let t = m.store.tasks[f];
    let m1 = mgr_remove(m, id);
    let m2 = mgr_undo(m1);
    assert(m2.redo.len() == 1);
    assert(m2.redo.last() == m1.undo.last());
    let back = m2.store.tasks;
    let n = back.len() as int;
    assert(back[n - 1] == t);
    lemma_find_task(back, t.id);
    let f2 = find_task(back, t.id);
    assert(f2 != -1);
    assert forall|j: int| 0 <= j < n - 1 implies (#[trigger] back[j]).id != t.id by {
        if j < f {
            assert(back[j] == m.store.tasks[j]);
        } else {
            assert(back[j] == m.store.tasks[j + 1]);
        }
    }
    assert(f2 == n - 1);
    assert(mgr_redo(m2).store.tasks =~= m1.store.tasks);
    assert(mgr_redo(m2).store =~= m1.store);
    assert(mgr_redo(m2).undo =~= m1.undo);
    assert(mgr_redo(m2).redo =~= m1.redo);
    assert(mgr_redo(m2) =~= m1);
}

/// Undo immediately followed by redo reproduces the session exactly as
/// it stood after the original edit.
pub proof fn lemma_redo_of_edit(m: ManagerM, id: Seq<char>, description: Seq<char>, priority: Priority)
    requires
        find_task(m.store.tasks, id) != -1,
    ensures
        mgr_redo(mgr_undo(mgr_edit(m, id, description, priority))) == mgr_edit(
            m,
            id,
            description,
            priority,
        ),
{
    lemma_find_task(m.store.tasks, id);
    lemma_undo_of_edit(m, id, description, priority);
    let m1 = mgr_edit(m, id, description, priority);
    let m2 = mgr_undo(m1);
    assert(m2.redo.len() == 1);
    assert(m2.redo.last() == m1.undo.last());
    assert(mgr_redo(m2).store =~= m1.store);
    assert(mgr_redo(m2).undo =~= m1.undo);
    assert(mgr_redo(m2).redo =~= m1.redo);
    assert(mgr_redo(m2) =~= m1);
}

/// After adding, undoing, and redoing, the session shows the same tasks
/// as after the original add, except that the re-added task carries the
/// next counter value's id, not the original one: redoing an add
/// allocates a fresh id, so the full session state is not reproduced.
pub proof fn lemma_redo_of_add(m: ManagerM, description: Seq<char>, priority: Priority)
    requires
        ids_bounded(m.store),
        m.store.next_id + 1 < u32::MAX,
    ensures
        mgr_redo(mgr_undo(mgr_add(m, description, priority))).store.tasks == m.store.tasks.push(
            TaskM {
                id: hex_of(m.store.next_id + 1),
                description,
                priority,
                completed: false,
            },
        ),
        mgr_redo(mgr_undo(mgr_add(m, description, priority))).store.next_id == m.store.next_id
            + 2,
{
    lemma_undo_of_add(m, description, priority);
    let m1 = mgr_add(m, description, priority);
    let m2 = mgr_undo(m1);
    assert(m2.redo.len() == 1);
    assert(m2.redo.last() == m1.undo.last());
    assert(mgr_redo(m2).store.tasks =~= m.store.tasks.push(
        TaskM {
            id: hex_of(m.store.next_id + 1),
            description,
            priority,
            completed: false,
        },
    ));
}

/// Undoing with an empty history changes nothing.
pub proof fn lemma_undo_empty(m: ManagerM)
    requires
        m.undo.len() == 0,
    ensures
        mgr_undo(m) == m,
{
}

/// Redoing with an empty redo history changes nothing.
pub proof fn lemma_redo_empty(m: ManagerM)
    requires
        m.redo.len() == 0,
    ensures
        mgr_redo(m) == m,
{
}

} // verus!
