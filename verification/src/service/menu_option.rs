//! The interactive menu: its options, the table of labels and input
//! keys, and case-insensitive parsing of a typed choice.

use vstd::prelude::*;
use vstd::string::StringExecFns;
use crate::text::chars_eq_str;
use crate::text::lower_chars;
use crate::text::lower_chars_of;

verus! {

/// One choice of the interactive menu.
#[derive(Debug, Clone, Copy, PartialEq, Eq, Structural)]
pub enum MenuOption {
    AddTask,
    ListTasks,
    CompleteTask,
    RemoveTask,
    EditTask,
    Exit,
    Undo,
    Redo,
}

/// The menu label shown for an option.
pub open spec fn menu_label(o: MenuOption) -> Seq<char> {
    match o {
        MenuOption::AddTask => "1. Add Task"@,
        MenuOption::ListTasks => "2. List Tasks"@,
        MenuOption::CompleteTask => "3. Complete Task"@,
        MenuOption::RemoveTask => "4. Remove Task"@,
        MenuOption::EditTask => "5. Edit Task"@,
        MenuOption::Exit => "[E] Exit"@,
        MenuOption::Undo => "[U] Undo"@,
        MenuOption::Redo => "[R] Redo"@,
    }
}

/// The input key that selects an option, lower-case.
pub open spec fn menu_key(o: MenuOption) -> Seq<char> {
    match o {
        MenuOption::AddTask => "1"@,
        MenuOption::ListTasks => "2"@,
        MenuOption::CompleteTask => "3"@,
        MenuOption::RemoveTask => "4"@,
        MenuOption::EditTask => "5"@,
        MenuOption::Exit => "e"@,
        MenuOption::Undo => "u"@,
        MenuOption::Redo => "r"@,
    }
}

/// Which option, if any, a typed choice selects: the text, lower-cased,
/// must equal an option's input key.
pub open spec fn parse_menu_option(s: Seq<char>) -> Option<MenuOption> {
    let l = lower_chars(s);
    if l == "1"@ {
        Some(MenuOption::AddTask)
    } else if l == "2"@ {
        Some(MenuOption::ListTasks)
    } else if l == "3"@ {
        Some(MenuOption::CompleteTask)
    } else if l == "4"@ {
        Some(MenuOption::RemoveTask)
    } else if l == "5"@ {
        Some(MenuOption::EditTask)
    } else if l == "e"@ {
        Some(MenuOption::Exit)
    } else if l == "u"@ {
        Some(MenuOption::Undo)
    } else if l == "r"@ {
        Some(MenuOption::Redo)
    } else {
        None
    }
}

/// The menu table, in display order: label, input key, option. Built
/// afresh on each call and handed to whoever renders or parses menu
/// choices; no process-wide state is kept.
pub fn menu_options() -> (r: Vec<(&'static str, &'static str, MenuOption)>)
    ensures
        r@.len() == 8,
        forall|i: int| 0 <= i < 8 ==> (#[trigger] r@[i]).0@ == menu_label(r@[i].2)
            && r@[i].1@ == menu_key(r@[i].2),
        r@[0].2 == MenuOption::AddTask,
        r@[1].2 == MenuOption::ListTasks,
        r@[2].2 == MenuOption::CompleteTask,
        r@[3].2 == MenuOption::RemoveTask,
        r@[4].2 == MenuOption::EditTask,
        r@[5].2 == MenuOption::Exit,
        r@[6].2 == MenuOption::Undo,
        r@[7].2 == MenuOption::Redo,
{
    let mut r: Vec<(&'static str, &'static str, MenuOption)> = Vec::new();
    r.push(("1. Add Task", "1", MenuOption::AddTask));
    r.push(("2. List Tasks", "2", MenuOption::ListTasks));
    r.push(("3. Complete Task", "3", MenuOption::CompleteTask));
    r.push(("4. Remove Task", "4", MenuOption::RemoveTask));
    r.push(("5. Edit Task", "5", MenuOption::EditTask));
    r.push(("[E] Exit", "e", MenuOption::Exit));
    r.push(("[U] Undo", "u", MenuOption::Undo));
    r.push(("[R] Redo", "r", MenuOption::Redo));
    r
}

impl MenuOption {
    /// Parses a typed menu choice, case-insensitively. Unrecognised text
    /// is reported back in the error message.
    pub fn str_to_menuoption(text: &str) -> (r: Result<MenuOption, String>)
        ensures
            match r {
                Ok(o) => parse_menu_option(text@) == Some(o),
                Err(e) => parse_menu_option(text@) is None && e@ == "The option: "@ + text@
                    + " is invalid, please try again."@,
            },
    {
        let lowered = lower_chars_of(text);
        if chars_eq_str(&lowered, "1") {
            Ok(MenuOption::AddTask)
        } else if chars_eq_str(&lowered, "2") {
            Ok(MenuOption::ListTasks)
        } else if chars_eq_str(&lowered, "3") {
            Ok(MenuOption::CompleteTask)
        } else if chars_eq_str(&lowered, "4") {
            Ok(MenuOption::RemoveTask)
        } else if chars_eq_str(&lowered, "5") {
            Ok(MenuOption::EditTask)
        } else if chars_eq_str(&lowered, "e") {
            Ok(MenuOption::Exit)
        } else if chars_eq_str(&lowered, "u") {
            Ok(MenuOption::Undo)
        } else if chars_eq_str(&lowered, "r") {
            Ok(MenuOption::Redo)
        } else {
            let mut msg = String::from_str("The option: ");
            msg.append(text);
            msg.append(" is invalid, please try again.");
            Err(msg)
        }
    }

    /// The input key that selects the given option.
    pub fn get_input_key(menuoption: &MenuOption) -> (r: &'static str)
        ensures
            r@ == menu_key(*menuoption),
    {
        match menuoption {
            MenuOption::AddTask => "1",
            MenuOption::ListTasks => "2",
            MenuOption::CompleteTask => "3",
            MenuOption::RemoveTask => "4",
            MenuOption::EditTask => "5",
            MenuOption::Exit => "e",
            MenuOption::Undo => "u",
            MenuOption::Redo => "r",
        }
    }
}

} // verus!
