//! The service layer: commands with their undo records, the session
//! manager with its undo/redo history, and the interactive menu table.

pub mod actions;
pub mod laws;
pub mod manager;
pub mod menu_option;
