//! The session manager: executes commands against the task store,
//! maintains the undo and redo stacks, and exposes the public API the
//! presentation layers consume. Every operation is specified as a
//! transition on the session's mathematical model.

use vstd::prelude::*;
use vstd::string::StringExecFns;
use crate::model::priority::Priority;
use crate::model::task::Task;
use crate::model::todo_list::find_task;
use crate::model::todo_list::lemma_find_task;
use crate::model::todo_list::st_push;
use crate::model::todo_list::st_toggle;
use crate::model::todo_list::tasks_model;
use crate::model::todo_list::StoreM;
use crate::model::todo_list::TodoList;
use crate::model::task::TaskM;
use crate::service::actions::cmd_execute;
use crate::service::actions::cmd_runnable;
use crate::service::actions::ActionTrait;
use crate::service::actions::CmdM;
use crate::service::actions::Command;
use crate::service::actions::UndoM;
use crate::service::actions::UndoRedoData;
use crate::ui::displayer::Displayer;

verus! {

/// The model of a session: the store and the two history stacks, most
/// recent entry last.
#[verifier::ext_equal]
pub struct ManagerM {
    pub store: StoreM,
    pub undo: Seq<(CmdM, UndoM)>,
    pub redo: Seq<(CmdM, UndoM)>,
}

/// The models of a history stack's entries.
pub open spec fn stack_model(v: Seq<(Command, UndoRedoData)>) -> Seq<(CmdM, UndoM)> {
    v.map(|_i: int, p: (Command, UndoRedoData)| (p.0@, p.1@))
}

/// The session manager. The displayer is the presentation layer the
/// session reports through; it takes no part in the store transitions.
pub struct Manager<D: Displayer> {
    pub todo_list: TodoList,
    pub undo_stack: Vec<(Command, UndoRedoData)>,
    pub redo_stack: Vec<(Command, UndoRedoData)>,
    pub displayer: Option<D>,
}

impl<D: Displayer> View for Manager<D> {
    type V = ManagerM;

    open spec fn view(&self) -> ManagerM {
        ManagerM {
            store: self.todo_list@,
            undo: stack_model(self.undo_stack@),
            redo: stack_model(self.redo_stack@),
        }
    }
}

/// A fresh mutation: the command executes against the store, the pair is
/// pushed onto the undo stack, and the redo history is invalidated.
pub open spec fn mgr_apply(m: ManagerM, c: CmdM) -> ManagerM {
    let (s2, u) = cmd_execute(c, m.store);
    ManagerM { store: s2, undo: m.undo.push((c, u)), redo: Seq::empty() }
}

/// Adding a task through the session.
pub open spec fn mgr_add(m: ManagerM, description: Seq<char>, priority: Priority) -> ManagerM {
    mgr_apply(m, CmdM::AddTask { description, priority })
}

/// Toggling a task's completion flag through the session.
pub open spec fn mgr_toggle(m: ManagerM, id: Seq<char>) -> ManagerM {
    mgr_apply(m, CmdM::CompleteTask { id })
}

/// Removing a task through the session. The command snapshots the
/// targeted task.
pub open spec fn mgr_remove(m: ManagerM, id: Seq<char>) -> ManagerM {
    mgr_apply(m, CmdM::RemoveTask { task: m.store.tasks[find_task(m.store.tasks, id)] })
}

/// Editing a task through the session.
pub open spec fn mgr_edit(
    m: ManagerM,
    id: Seq<char>,
    description: Seq<char>,
    priority: Priority,
) -> ManagerM {
    mgr_apply(m, CmdM::EditTask { id, description, priority })
}

/// Whether the reversal an undo record describes can be applied to the
/// store: the task it operates on must still be present. Reinsertion
/// can always be applied.
pub open spec fn undo_ok(u: UndoM, s: StoreM) -> bool {
    match u {
        UndoM::AddTask { task } => find_task(s.tasks, task.id) != -1,
        UndoM::CompleteTask { id, .. } => find_task(s.tasks, id) != -1,
        UndoM::RemoveTask { .. } => true,
        UndoM::EditTask { previous_task } => find_task(s.tasks, previous_task.id) != -1,
    }
}

/// The reversal an undo record describes: remove the added task,
/// toggle again, reinsert the removed task at the end, or restore the
/// pre-edit snapshot.
pub open spec fn undo_apply(u: UndoM, s: StoreM) -> StoreM {
    match u {
        UndoM::AddTask { task } => crate::model::todo_list::st_remove(s, task.id),
        UndoM::CompleteTask { id, .. } => st_toggle(s, id),
        UndoM::RemoveTask { task } => st_push(s, task),
        UndoM::EditTask { previous_task } => crate::model::todo_list::st_edit(
            s,
            previous_task.id,
            previous_task.description,
            previous_task.priority,
        ),
    }
}

/// Undoing: the most recent pair moves from the undo stack to the redo
/// stack and its reversal is applied. With an empty history, or when the
/// recorded task is gone from the store, nothing changes.
pub open spec fn mgr_undo(m: ManagerM) -> ManagerM {
    if m.undo.len() == 0 {
        m
    } else {
        let (c, u) = m.undo.last();
        if undo_ok(u, m.store) {
            ManagerM {
                store: undo_apply(u, m.store),
                undo: m.undo.drop_last(),
                redo: m.redo.push((c, u)),
            }
        } else {
            m
        }
    }
}

/// Redoing: the most recent pair moves back from the redo stack to the
/// undo stack and the command's forward effect is applied again. With an
/// empty redo history, or when the command can no longer run, nothing
/// changes.
pub open spec fn mgr_redo(m: ManagerM) -> ManagerM {
    if m.redo.len() == 0 {
        m
    } else {
        let (c, u) = m.redo.last();
        if cmd_runnable(c, m.store) {
            ManagerM {
                store: cmd_execute(c, m.store).0,
                undo: m.undo.push((c, u)),
                redo: m.redo.drop_last(),
            }
        } else {
            m
        }
    }
}

/// The session manager's public interface, as the presentation layers
/// consume it.
pub trait ManagerTrait<D: Displayer>: Sized {
    /// Whether a counter value is left to allocate for a new task.
    spec fn can_add(&self) -> bool;

    /// A fresh session over an empty store, with empty histories.
    fn new(displayer: D) -> Self;

    /// Adds a task; records the mutation; clears the redo history.
    fn add_task(&mut self, description: &str, priority: &Priority)
        requires
            old(self).can_add(),
    ;

    /// The tasks, in display order.
    fn get_tasks(&self) -> &Vec<Task>;

    /// The first task with the given id, if any.
    fn get_task(&self, id: &str) -> Option<&Task>;

    /// A mutable reference to the first task with the given id, if any.
    fn get_task_mut(&mut self, id: &str) -> Option<&mut Task>;

    /// Toggles a task; false if the id is unknown.
    fn toggle_task_status(&mut self, task_id: &str) -> bool;

    /// Removes a task; false if the id is unknown.
    fn remove_task(&mut self, task_id: &str) -> bool;

    /// Edits a task; false if the id is unknown.
    fn edit_task(
        &mut self,
        task_id: &str,
        new_description: &str,
        new_priority: &Priority,
    ) -> bool;

    /// Undoes the most recent mutation; Ok(false) with an empty history.
    fn undo(&mut self) -> Result<bool, String>;

    /// Redoes the most recently undone mutation; Ok(false) with an empty
    /// redo history.
    fn redo(&mut self) -> Result<bool, String>;
}

impl<D: Displayer> ManagerTrait<D> for Manager<D> {
    open spec fn can_add(&self) -> bool {
        self@.store.next_id < u32::MAX
    }

    /// A fresh session: empty store, counter at 1, default file name,
    /// both stacks empty, the displayer installed.
    fn new(displayer: D) -> (r: Manager<D>)
        ensures
            r@.store.tasks == Seq::<TaskM>::empty(),
            r@.store.next_id == 1,
            r@.store.file_name == "todo_list.json"@,
            r@.undo == Seq::<(CmdM, UndoM)>::empty(),
            r@.redo == Seq::<(CmdM, UndoM)>::empty(),
            r.displayer is Some,
    {
        let r = Manager {
            todo_list: TodoList::new(),
            undo_stack: Vec::new(),
            redo_stack: Vec::new(),
            displayer: Some(displayer),
        };
        proof {
            assert(r@.undo =~= Seq::<(CmdM, UndoM)>::empty());
            assert(r@.redo =~= Seq::<(CmdM, UndoM)>::empty());
        }
        r
    }

    /// The session steps by `mgr_add`.
    fn add_task(&mut self, description: &str, priority: &Priority)
        ensures
            final(self)@ == mgr_add(old(self)@, description@, *priority),
            final(self).displayer == old(self).displayer,
    {
        let mut command = Command::AddTask {
            description: description.to_owned(),
            priority: *priority,
        };
        let undo_data = command.execute(self);
        self.undo_stack.push((command, undo_data));
        self.redo_stack.clear();
        proof {
            assert(self@.undo =~= mgr_add(old(self)@, description@, *priority).undo);
            assert(self@.redo =~= Seq::<(CmdM, UndoM)>::empty());
            assert(self@ =~= mgr_add(old(self)@, description@, *priority));
        }
    }

    fn get_tasks(&self) -> (r: &Vec<Task>)
        ensures
            r@ == self.todo_list.tasks@,
            tasks_model(r@) == self@.store.tasks,
    {
        self.todo_list.get_tasks()
    }

    /// Returns the first task with the given id exactly when the id is
    /// present.
    fn get_task(&self, id: &str) -> (r: Option<&Task>)
        ensures
            find_task(self@.store.tasks, id@) == -1 ==> r is None,
            find_task(self@.store.tasks, id@) != -1 ==> r is Some && (*r.unwrap())@
                == self@.store.tasks[find_task(self@.store.tasks, id@)],
    {
        let tasks = self.todo_list.get_tasks();
        let n = tasks.len();
        let mut i: usize = 0;
        while i < n
            invariant
                i <= n,
                n == tasks@.len(),
                tasks@ == self.todo_list.tasks@,
                forall|j: int| 0 <= j < i ==> self@.store.tasks[j].id != id@,
            decreases n - i,
        {
            if crate::text::str_eq(tasks[i].id.as_str(), id) {
                proof {
                    assert(self@.store.tasks[i as int].id == id@);
                    lemma_find_task(self@.store.tasks, id@);
                    let f = find_task(self@.store.tasks, id@);
                    assert(f != -1);
                    if f < i {
                        assert(self@.store.tasks[f].id == id@);
                    }
                    assert(f == i);
                }
                return Some(&tasks[i]);
            }
            i = i + 1;
        }
        proof {
            lemma_find_task(self@.store.tasks, id@);
        }
        None
    }

    /// Forwards to the store's mutable lookup; the history stacks are
    /// untouched.
    fn get_task_mut(&mut self, id: &str) -> (r: Option<&mut Task>)
        ensures
            find_task(old(self)@.store.tasks, id@) == -1 ==> r is None && *final(self) == *old(self),
            find_task(old(self)@.store.tasks, id@) != -1 ==> {
                let i = find_task(old(self)@.store.tasks, id@);
                &&& r is Some
                &&& (*r.unwrap())@ == old(self)@.store.tasks[i]
                &&& final(self)@.store.tasks == old(self)@.store.tasks.update(
                    i,
                    (*final(r.unwrap()))@,
                )
                &&& final(self)@.store.next_id == old(self)@.store.next_id
                &&& final(self)@.store.file_name == old(self)@.store.file_name
                &&& final(self)@.undo == old(self)@.undo
                &&& final(self)@.redo == old(self)@.redo
                &&& final(self).displayer == old(self).displayer
            },
    {
        self.todo_list.get_task_mut(id)
    }

    /// With a known id the session steps by `mgr_toggle` and reports
    /// true; an unknown id changes nothing and reports false.
    fn toggle_task_status(&mut self, task_id: &str) -> (r: bool)
        ensures
            find_task(old(self)@.store.tasks, task_id@) == -1 ==> !r && *final(self) == *old(self),
            find_task(old(self)@.store.tasks, task_id@) != -1 ==> r && final(self)@ == mgr_toggle(
                old(self)@,
                task_id@,
            ) && final(self).displayer == old(self).displayer,
    {
        if self.get_task(task_id).is_none() {
            return false;
        }
        let mut command = Command::CompleteTask { id: task_id.to_owned() };
        let undo_data = command.execute(self);
        self.undo_stack.push((command, undo_data));
        self.redo_stack.clear();
        proof {
            assert(self@.undo =~= mgr_toggle(old(self)@, task_id@).undo);
            assert(self@.redo =~= Seq::<(CmdM, UndoM)>::empty());
            assert(self@ =~= mgr_toggle(old(self)@, task_id@));
        }
        true
    }

    /// With a known id the session steps by `mgr_remove` and reports
    /// true; an unknown id changes nothing and reports false.
    fn remove_task(&mut self, task_id: &str) -> (r: bool)
        ensures
            find_task(old(self)@.store.tasks, task_id@) == -1 ==> !r && *final(self) == *old(self),
            find_task(old(self)@.store.tasks, task_id@) != -1 ==> r && final(self)@ == mgr_remove(
                old(self)@,
                task_id@,
            ) && final(self).displayer == old(self).displayer,
    {
        let snapshot = match self.get_task(task_id) {
            None => {
                return false;
            },
            Some(task) => task.clone(),
        };
        proof {
            lemma_find_task(old(self)@.store.tasks, task_id@);
        }
        let mut command = Command::RemoveTask { task: snapshot };
        let undo_data = command.execute(self);
        self.undo_stack.push((command, undo_data));
        self.redo_stack.clear();
        proof {
            assert(self@.undo =~= mgr_remove(old(self)@, task_id@).undo);
            assert(self@.redo =~= Seq::<(CmdM, UndoM)>::empty());
            assert(self@ =~= mgr_remove(old(self)@, task_id@));
        }
        true
    }

    /// With a known id the session steps by `mgr_edit` and reports true;
    /// an unknown id changes nothing and reports false.
    fn edit_task(
        &mut self,
        task_id: &str,
        new_description: &str,
        new_priority: &Priority,
    ) -> (r: bool)
        ensures
            find_task(old(self)@.store.tasks, task_id@) == -1 ==> !r && *final(self) == *old(self),
            find_task(old(self)@.store.tasks, task_id@) != -1 ==> r && final(self)@ == mgr_edit(
                old(self)@,
                task_id@,
                new_description@,
                *new_priority,
            ) && final(self).displayer == old(self).displayer,
    {
        if self.get_task(task_id).is_none() {
            return false;
        }
        let mut command = Command::EditTask {
            id: task_id.to_owned(),
            new_fields: (new_description.to_owned(), *new_priority),
        };
        let undo_data = command.execute(self);
        self.undo_stack.push((command, undo_data));
        self.redo_stack.clear();
        proof {
            assert(self@.undo =~= mgr_edit(
                old(self)@,
                task_id@,
                new_description@,
                *new_priority,
            ).undo);
            assert(self@.redo =~= Seq::<(CmdM, UndoM)>::empty());
            assert(self@ =~= mgr_edit(old(self)@, task_id@, new_description@, *new_priority));
        }
        true
    }

    /// The session steps by `mgr_undo`. Ok(true) when a mutation was
    /// reversed, Ok(false) when the history was empty — a normal
    /// boundary, not an error — and an error, with nothing changed, when
    /// the recorded task is gone from the store.
    fn undo(&mut self) -> (r: Result<bool, String>)
        ensures
            final(self)@ == mgr_undo(old(self)@),
            final(self).displayer == old(self).displayer,
            old(self)@.undo.len() == 0 ==> r == Result::<bool, String>::Ok(false),
            old(self)@.undo.len() > 0 && undo_ok(old(self)@.undo.last().1, old(self)@.store)
                ==> r == Result::<bool, String>::Ok(true),
            old(self)@.undo.len() > 0 && !undo_ok(old(self)@.undo.last().1, old(self)@.store)
                ==> (r matches Err(e) && e@ == "Undo failed: the recorded task is gone"@),
    {
        let (command, undo_data) = match self.undo_stack.pop() {
            None => {
                return Ok(false);
            },
            Some(pair) => pair,
        };
        let applicable = match &undo_data {
            UndoRedoData::AddTask { task } => self.get_task(task.id.as_str()).is_some(),
            UndoRedoData::CompleteTask { id, .. } => self.get_task(id.as_str()).is_some(),
            UndoRedoData::RemoveTask { .. } => true,
            UndoRedoData::EditTask { previous_task } => self.get_task(
                previous_task.id.as_str(),
            ).is_some(),
        };
        if !applicable {
            self.undo_stack.push((command, undo_data));
            proof {
                assert(self.undo_stack@ =~= old(self).undo_stack@);
                assert(self@ =~= old(self)@);
            }
            return Err(String::from_str("Undo failed: the recorded task is gone"));
        }
        match &undo_data {
            UndoRedoData::AddTask { task } => {
                self.todo_list.remove_task(task.id.clone());
            },
            UndoRedoData::CompleteTask { id, .. } => {
                self.todo_list.toggle_task_status(id.clone());
            },
            UndoRedoData::RemoveTask { task } => {
                self.todo_list.push_task(task.clone());
            },
            UndoRedoData::EditTask { previous_task } => {
                self.todo_list.edit_task(
                    previous_task.id.as_str(),
                    (previous_task.description.as_str(), &previous_task.priority),
                );
            },
        }
        self.redo_stack.push((command, undo_data));
        proof {
            assert(self@.undo =~= mgr_undo(old(self)@).undo);
            assert(self@.redo =~= mgr_undo(old(self)@).redo);
            assert(self@ =~= mgr_undo(old(self)@));
        }
        Ok(true)
    }

    /// The session steps by `mgr_redo`. Ok(true) when a mutation was
    /// re-applied, Ok(false) when the redo history was empty, and an
    /// error, with nothing changed, when the command can no longer run.
    fn redo(&mut self) -> (r: Result<bool, String>)
        ensures
            final(self)@ == mgr_redo(old(self)@),
            final(self).displayer == old(self).displayer,
            old(self)@.redo.len() == 0 ==> r == Result::<bool, String>::Ok(false),
            old(self)@.redo.len() > 0 && cmd_runnable(old(self)@.redo.last().0, old(self)@.store)
                ==> r == Result::<bool, String>::Ok(true),
            old(self)@.redo.len() > 0 && !cmd_runnable(old(self)@.redo.last().0, old(self)@.store)
                ==> (r matches Err(e) && e@ == "Redo failed: the command can no longer run"@),
    {
        let (command, undo_data) = match self.redo_stack.pop() {
            None => {
                return Ok(false);
            },
            Some(pair) => pair,
        };
        let applicable = match &command {
            Command::AddTask { .. } => self.todo_list.next_id < u32::MAX,
            Command::RemoveTask { task } => self.get_task(task.id.as_str()).is_some(),
            Command::CompleteTask { id } => self.get_task(id.as_str()).is_some(),
            Command::EditTask { id, .. } => self.get_task(id.as_str()).is_some(),
        };
        if !applicable {
            self.redo_stack.push((command, undo_data));
            proof {
                assert(self.redo_stack@ =~= old(self).redo_stack@);
                assert(self@ =~= old(self)@);
            }
            return Err(String::from_str("Redo failed: the command can no longer run"));
        }
        match &command {
            Command::AddTask { description, priority } => {
                self.todo_list.add_task(description.clone(), *priority);
            },
            Command::CompleteTask { id } => {
                self.todo_list.toggle_task_status(id.clone());
            },
            Command::RemoveTask { task } => {
                self.todo_list.remove_task(task.id.clone());
            },
            Command::EditTask { id, new_fields } => {
                self.todo_list.edit_task(
                    id.as_str(),
                    (new_fields.0.as_str(), &new_fields.1),
                );
            },
        }
        self.undo_stack.push((command, undo_data));
        proof {
            assert(self@.undo =~= mgr_redo(old(self)@).undo);
            assert(self@.redo =~= mgr_redo(old(self)@).redo);
            assert(self@ =~= mgr_redo(old(self)@));
        }
        Ok(true)
    }
}

} // verus!
