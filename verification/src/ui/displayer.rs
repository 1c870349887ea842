//! The interface between the engine and a presentation layer. The engine
//! only ever reports outcomes through `notify` and receives intents from
//! `display`; it never formats for a specific transport.

use vstd::prelude::*;
use crate::service::menu_option::MenuOption;

verus! {

/// A presentation layer: shows the menu, reports outcomes, says goodbye.
/// The console front end implements this over real I/O; `MockDisplayer`
/// is the silent implementation used in tests.
pub trait Displayer: Sized {
    /// A fresh instance of this displayer.
    fn new() -> Self;

    /// Shows the menu and returns the selected option, or an error
    /// message for an invalid choice.
    fn display(&mut self) -> Result<MenuOption, String>;

    /// Reports an outcome to the user.
    fn notify(&mut self, message: &str) -> Result<(), String>;

    /// Announces that the application is closing.
    fn exit(&mut self) -> Result<(), String>;
}

/// A displayer that swallows every message and always selects `Exit`.
pub struct MockDisplayer;

impl Displayer for MockDisplayer {
    fn new() -> (r: MockDisplayer) {
        MockDisplayer
    }

    fn display(&mut self) -> (r: Result<MenuOption, String>)
        ensures
            r == Result::<MenuOption, String>::Ok(MenuOption::Exit),
    {
        Ok(MenuOption::Exit)
    }

    fn notify(&mut self, message: &str) -> (r: Result<(), String>)
        ensures
            r is Ok,
    {
        Ok(())
    }

    fn exit(&mut self) -> (r: Result<(), String>)
        ensures
            r is Ok,
    {
        Ok(())
    }
}

} // verus!
