//! The data model: priorities, task records, and the file-backed task store.

pub mod json;
pub mod priority;
pub mod task;
pub mod todo_list;
