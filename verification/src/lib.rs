//! A verified task-management engine: a task store with hexadecimal id
//! allocation, JSON persistence of the task list, and a command-based
//! undo/redo session manager, together with the pure parts of the
//! command-line front end.

pub mod model;
pub mod numerals;
pub mod service;
pub mod text;
pub mod ui;
