//! Commands — mutating intents as first-class values — and the undo
//! records their execution produces. Executing a command performs
//! exactly one task-store mutation and returns the data needed to
//! reverse it.

use vstd::prelude::*;
use crate::model::priority::Priority;
use crate::model::task::Task;
use crate::model::task::TaskM;
use crate::model::todo_list::find_task;
use crate::model::todo_list::lemma_find_task;
use crate::model::todo_list::st_add;
use crate::model::todo_list::st_edit;
use crate::model::todo_list::st_remove;
use crate::model::todo_list::st_toggle;
use crate::model::todo_list::StoreM;
use crate::numerals::hex_of;
use crate::service::manager::Manager;
use crate::service::manager::ManagerTrait;
use crate::ui::displayer::Displayer;

verus! {

/// The data needed to reverse one executed command: the created task (to
/// remove it), the removed task (to reinsert it verbatim), the flag
/// before a toggle, or the full pre-edit snapshot.
#[derive(Debug, Clone)]
pub enum UndoRedoData {
    AddTask { task: Task },
    CompleteTask { id: String, previous_state: bool },
    RemoveTask { task: Task },
    EditTask { previous_task: Task },
}

/// The model of an undo record.
#[verifier::ext_equal]
pub enum UndoM {
    AddTask { task: TaskM },
    CompleteTask { id: Seq<char>, previous_state: bool },
    RemoveTask { task: TaskM },
    EditTask { previous_task: TaskM },
}

impl View for UndoRedoData {
    type V = UndoM;

    open spec fn view(&self) -> UndoM {
        match self {
            UndoRedoData::AddTask { task } => UndoM::AddTask { task: task@ },
            UndoRedoData::CompleteTask { id, previous_state } => UndoM::CompleteTask {
                id: id@,
                previous_state: *previous_state,
            },
            UndoRedoData::RemoveTask { task } => UndoM::RemoveTask { task: task@ },
            UndoRedoData::EditTask { previous_task } => UndoM::EditTask {
                previous_task: previous_task@,
            },
        }
    }
}

/// A mutating intent, carrying only the data needed for its forward
/// action. Removal carries the full task snapshot so that undoing it can
/// resurrect the exact record without a second lookup.
#[derive(Debug)]
pub enum Command {
    AddTask { description: String, priority: Priority },
    RemoveTask { task: Task },
    CompleteTask { id: String },
    EditTask { id: String, new_fields: (String, Priority) },
}

/// The model of a command.
#[verifier::ext_equal]
pub enum CmdM {
    AddTask { description: Seq<char>, priority: Priority },
    RemoveTask { task: TaskM },
    CompleteTask { id: Seq<char> },
    EditTask { id: Seq<char>, description: Seq<char>, priority: Priority },
}

impl View for Command {
    type V = CmdM;

    open spec fn view(&self) -> CmdM {
        match self {
            Command::AddTask { description, priority } => CmdM::AddTask {
                description: description@,
                priority: *priority,
            },
            Command::RemoveTask { task } => CmdM::RemoveTask { task: task@ },
            Command::CompleteTask { id } => CmdM::CompleteTask { id: id@ },
            Command::EditTask { id, new_fields } => CmdM::EditTask {
                id: id@,
                description: new_fields.0@,
                priority: new_fields.1,
            },
        }
    }
}

/// Whether a command can run against a store: its target id must be
/// present, and adding must have a counter value left to allocate.
pub open spec fn cmd_runnable(c: CmdM, s: StoreM) -> bool {
    match c {
        CmdM::AddTask { .. } => s.next_id < u32::MAX,
        CmdM::RemoveTask { task } => find_task(s.tasks, task.id) != -1,
        CmdM::CompleteTask { id } => find_task(s.tasks, id) != -1,
        CmdM::EditTask { id, .. } => find_task(s.tasks, id) != -1,
    }
}

/// What executing a command does: the store afterwards, and the undo
/// record produced.
pub open spec fn cmd_execute(c: CmdM, s: StoreM) -> (StoreM, UndoM) {
    match c {
        CmdM::AddTask { description, priority } => (
            st_add(s, description, priority),
            UndoM::AddTask {
                task: TaskM { id: hex_of(s.next_id), description, priority, completed: false },
            },
        ),
        CmdM::RemoveTask { task } => (st_remove(s, task.id), UndoM::RemoveTask { task }),
        CmdM::CompleteTask { id } => (
            st_toggle(s, id),
            UndoM::CompleteTask {
                id,
                previous_state: s.tasks[find_task(s.tasks, id)].completed,
            },
        ),
        CmdM::EditTask { id, description, priority } => (
            st_edit(s, id, description, priority),
            UndoM::EditTask { previous_task: s.tasks[find_task(s.tasks, id)] },
        ),
    }
}

/// An action that can be performed against a live session, yielding the
/// record needed to reverse it.
pub trait ActionTrait {
    /// Whether the action can run against the given store.
    spec fn runnable(&self, store: StoreM) -> bool;

    /// Performs the action against the session's store and returns the
    /// matching undo record. The history stacks are not touched.
    fn execute<D: Displayer>(&mut self, manager: &mut Manager<D>) -> UndoRedoData
        requires
            old(self).runnable(old(manager).todo_list@),
    ;
}

impl ActionTrait for Command {
    open spec fn runnable(&self, store: StoreM) -> bool {
        cmd_runnable(self@, store)
    }

    /// Executing a command transforms the store as `cmd_execute` says and
    /// returns exactly the undo record `cmd_execute` names.
    fn execute<D: Displayer>(&mut self, manager: &mut Manager<D>) -> (r: UndoRedoData)
        ensures
            *final(self) == *old(self),
            final(manager).todo_list@ == cmd_execute(old(self)@, old(manager).todo_list@).0,
            r@ == cmd_execute(old(self)@, old(manager).todo_list@).1,
            final(manager).undo_stack == old(manager).undo_stack,
            final(manager).redo_stack == old(manager).redo_stack,
            final(manager).displayer == old(manager).displayer,
    {
        match self {
            Command::AddTask { description, priority } => {
                let id = manager.todo_list.add_task(description.clone(), *priority);
                UndoRedoData::AddTask {
                    task: Task {
                        id,
                        description: description.clone(),
                        priority: *priority,
                        completed: false,
                    },
                }
            },
            Command::RemoveTask { task } => {
                manager.todo_list.remove_task(task.id.clone());
                UndoRedoData::RemoveTask { task: task.clone() }
            },
            Command::CompleteTask { id } => {
                let previous_state = match manager.get_task(id.as_str()) {
                    Some(task) => task.completed,
                    None => false,
                };
                proof {
                    lemma_find_task(old(manager).todo_list@.tasks, id@);
                }
                manager.todo_list.toggle_task_status(id.clone());
                UndoRedoData::CompleteTask { id: id.clone(), previous_state }
            },
            Command::EditTask { id, new_fields } => {
                let previous_task = match manager.get_task(id.as_str()) {
                    Some(task) => task.clone(),
                    None => Task {
                        id: String::new(),
                        description: String::new(),
                        priority: Priority::Low,
                        completed: false,
                    },
                };
                proof {
                    lemma_find_task(old(manager).todo_list@.tasks, id@);
                }
                manager.todo_list.edit_task(
                    id.as_str(),
                    (new_fields.0.as_str(), &new_fields.1),
                );
                UndoRedoData::EditTask { previous_task }
            },
        }
    }
}

} // verus!
