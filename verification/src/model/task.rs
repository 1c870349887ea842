//! A single to-do record and its mathematical model.

use vstd::prelude::*;
use crate::model::priority::Priority;

verus! {

/// A single to-do record. `id` is an opaque token, unique within a store:
/// the hexadecimal rendering of the counter value that allocated it.
#[derive(Debug)]
pub struct Task {
    pub id: String,
    pub description: String,
    pub priority: Priority,
    pub completed: bool,
}

/// The model of a task: its text fields as character sequences.
#[verifier::ext_equal]
pub struct TaskM {
    pub id: Seq<char>,
    pub description: Seq<char>,
    pub priority: Priority,
    pub completed: bool,
}

impl View for Task {
    type V = TaskM;

    open spec fn view(&self) -> TaskM {
        TaskM {
            id: self.id@,
            description: self.description@,
            priority: self.priority,
            completed: self.completed,
        }
    }
}

impl Clone for Task {
    /// A clone of a task models the same record.
    fn clone(&self) -> (r: Task)
        ensures
            r@ == self@,
    {
        Task {
            id: self.id.clone(),
            description: self.description.clone(),
            priority: self.priority,
            completed: self.completed,
        }
    }
}

} // verus!
