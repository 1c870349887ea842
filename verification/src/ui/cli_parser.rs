//! Evaluation of parsed command-line invocations against a session: one
//! mutating or listing call per invocation, outcomes reported through
//! the displayer. Argument parsing itself is a thin adapter around this
//! and lives with the rest of the I/O code.

use vstd::prelude::*;
use vstd::string::StringExecFns;
use crate::model::priority::Priority;
use crate::model::todo_list::find_task;
use crate::numerals::dec_chars;
use crate::service::manager::mgr_add;
use crate::service::manager::mgr_edit;
use crate::service::manager::mgr_remove;
use crate::service::manager::mgr_toggle;
use crate::service::manager::Manager;
use crate::service::manager::ManagerM;
use crate::service::manager::ManagerTrait;
use crate::text::chars_to_string;
use crate::text::sp_contains;
use crate::text::sp_replace;
use crate::text::str_contains;
use crate::text::str_replace;
use crate::ui::displayer::Displayer;

verus! {

/// A parsed command-line invocation.
#[derive(Debug, Clone, PartialEq)]
pub enum CliCommand {
    Add { description: Option<String>, priority: Priority },
    List { priority: Option<Priority>, completed: Option<bool> },
    ToggleStatus { id: String },
    Remove { id: String },
    Edit {
        id: Option<String>,
        pattern: Option<String>,
        replace: Option<String>,
        priority: Option<Priority>,
    },
}

/// The model of a parsed invocation.
#[verifier::ext_equal]
pub enum CliCmdM {
    Add { description: Option<Seq<char>>, priority: Priority },
    List { priority: Option<Priority>, completed: Option<bool> },
    ToggleStatus { id: Seq<char> },
    Remove { id: Seq<char> },
    Edit {
        id: Option<Seq<char>>,
        pattern: Option<Seq<char>>,
        replace: Option<Seq<char>>,
        priority: Option<Priority>,
    },
}

impl View for CliCommand {
    type V = CliCmdM;

    open spec fn view(&self) -> CliCmdM {
        match self {
            CliCommand::Add { description, priority } => CliCmdM::Add {
                description: match description {
                    Some(d) => Some(d@),
                    None => None,
                },
                priority: *priority,
            },
            CliCommand::List { priority, completed } => CliCmdM::List {
                priority: *priority,
                completed: *completed,
            },
            CliCommand::ToggleStatus { id } => CliCmdM::ToggleStatus { id: id@ },
            CliCommand::Remove { id } => CliCmdM::Remove { id: id@ },
            CliCommand::Edit { id, pattern, replace, priority } => CliCmdM::Edit {
                id: match id {
                    Some(i) => Some(i@),
                    None => None,
                },
                pattern: match pattern {
                    Some(p) => Some(p@),
                    None => None,
                },
                replace: match replace {
                    Some(r) => Some(r@),
                    None => None,
                },
                priority: *priority,
            },
        }
    }
}

/// Whether evaluating the command touches the session only through the
/// session's own contracted operations. Adding or editing without the
/// needed arguments is handed to the displayer's interactive flow
/// instead, whose effect the displayer decides.
pub open spec fn cli_determinate(c: CliCmdM) -> bool {
    match c {
        CliCmdM::Add { description, .. } => description is Some,
        CliCmdM::Edit { id, .. } => id is Some,
        _ => true,
    }
}

/// What evaluating a determinate command does to the session: listing
/// changes nothing; mutations with an unknown id change nothing; a
/// known-id mutation steps the session. An edit replaces the pattern in
/// the description when both pattern and replacement are given and the
/// pattern occurs; it keeps the old field wherever no new value applies;
/// pattern and replacement must be given together.
pub open spec fn cli_eval_spec(c: CliCmdM, m: ManagerM) -> ManagerM {
    match c {
        CliCmdM::Add { description, priority } => match description {
            Some(d) => mgr_add(m, d, priority),
            None => m,
        },
        CliCmdM::List { .. } => m,
        CliCmdM::ToggleStatus { id } => if find_task(m.store.tasks, id) == -1 {
            m
        } else {
            mgr_toggle(m, id)
        },
        CliCmdM::Remove { id } => if find_task(m.store.tasks, id) == -1 {
            m
        } else {
            mgr_remove(m, id)
        },
        CliCmdM::Edit { id, pattern, replace, priority } => match id {
            None => m,
            Some(id) => {
                let f = find_task(m.store.tasks, id);
                if f == -1 {
                    m
                } else if (pattern is Some) != (replace is Some) {
                    m
                } else {
                    let t = m.store.tasks[f];
                    let nd = if pattern is Some && sp_contains(t.description, pattern.unwrap()) {
                        sp_replace(t.description, pattern.unwrap(), replace.unwrap())
                    } else {
                        t.description
                    };
                    let np = match priority {
                        Some(p) => p,
                        None => t.priority,
                    };
                    mgr_edit(m, id, nd, np)
                }
            },
        },
    }
}

/// The displayer interface the one-shot command evaluation reports
/// through: outcome messages, and the interactive flows it falls back to
/// when a command lacks its arguments.
pub trait TraitCliDisplayer<D: Displayer>: Displayer {
    fn handle_add_task(&mut self, manager: &mut Manager<D>);

    fn handle_edit_task(&mut self, manager: &mut Manager<D>);
}

/// The parsed command line: at most one invocation to evaluate.
pub struct Cli {
    pub command: Option<CliCommand>,
}

/// The text "true" or "false".
fn bool_text(b: bool) -> (r: &'static str) {
    if b {
        "true"
    } else {
        "false"
    }
}

/// The display line for one task.
fn task_line(id: &str, description: &str, priority: &Priority, completed: bool) -> (r: String) {
    let mut m = String::from_str("ID: ");
    m.append(id);
    m.append(", Description: ");
    m.append(description);
    m.append(", Priority: ");
    let pt = priority.text();
    m.append(pt.as_str());
    m.append(", Completed: ");
    m.append(bool_text(completed));
    m
}

impl Cli {
    /// Evaluates one parsed invocation against the session, reporting
    /// outcomes through the displayer. For every command that acts
    /// through the session's own operations, the session afterwards is
    /// exactly `cli_eval_spec` of the session before.
    #[verifier::rlimit(60)]
    pub fn evaluate_command<D: Displayer, T: TraitCliDisplayer<D>>(
        &self,
        command: CliCommand,
        manager: &mut Manager<D>,
        displayer: &mut T,
    )
        requires
            (old(manager)@.store.next_id < u32::MAX) || !(command@ matches CliCmdM::Add {
                description: Some(_),
                ..
            }),
        ensures
            cli_determinate(command@) ==> final(manager)@ == cli_eval_spec(
                command@,
                old(manager)@,
            ),
    {
        match command {
            CliCommand::Add { description, priority } => match description {
                Some(desc) => {
                    manager.add_task(desc.as_str(), &priority);
                    let _ = displayer.notify("Task added successfully.");
                },
                None => {
                    displayer.handle_add_task(manager);
                },
            },
            CliCommand::List { priority, completed } => {
                let tasks = manager.get_tasks();
                let n = tasks.len();
                let mut filtered: Vec<usize> = Vec::new();
                let mut i: usize = 0;
                while i < n
                    invariant
                        i <= n,
                        n == tasks@.len(),
                        forall|k: int| 0 <= k < filtered@.len() ==> (#[trigger] filtered@[k])
                            < n,
                    decreases n - i,
                {
                    let keep_p = match &priority {
                        None => true,
                        Some(p) => tasks[i].priority == *p,
                    };
                    let keep_c = match &completed {
                        None => true,
                        Some(cb) => tasks[i].completed == *cb,
                    };
                    if keep_p && keep_c {
                        filtered.push(i);
                    }
                    i = i + 1;
                }
                let count = filtered.len();
                let mut msg: String;
                if count == 0 {
                    msg = String::from_str("No tasks found");
                } else {
                    let count_chars = dec_chars(count);
                    msg = chars_to_string(&count_chars);
                    msg.append(" tasks found");
                }
                match (&priority, &completed) {
                    (Some(p), Some(c)) => {
                        msg.append(" with priority ");
                        let pt = p.text();
                        msg.append(pt.as_str());
                        msg.append(" and completed = ");
                        msg.append(bool_text(*c));
                    },
                    (Some(p), None) => {
                        msg.append(" with priority ");
                        let pt = p.text();
                        msg.append(pt.as_str());
                    },
                    (None, Some(c)) => {
                        msg.append(" with completed = ");
                        msg.append(bool_text(*c));
                    },
                    (None, None) => {
                        if count == 0 {
                            msg.append(".");
                        }
                    },
                }
                let _ = displayer.notify(msg.as_str());
                if count > 0 {
                    let mut k: usize = 0;
                    while k < count
                        invariant
                            k <= count,
                            count == filtered@.len(),
                            n == tasks@.len(),
                            forall|q: int| 0 <= q < filtered@.len() ==> (
                            #[trigger] filtered@[q]) < n,
                        decreases count - k,
                    {
                        let idx = filtered[k];
                        let line = task_line(
                            tasks[idx].id.as_str(),
                            tasks[idx].description.as_str(),
                            &tasks[idx].priority,
                            tasks[idx].completed,
                        );
                        let _ = displayer.notify(line.as_str());
                        k = k + 1;
                    }
                }
            },
            CliCommand::Remove { id } => {
                if Self::is_task(id.as_str(), manager, displayer) {
                    manager.remove_task(id.as_str());
                    let _ = displayer.notify("Task removed successfully.");
                }
            },
            CliCommand::ToggleStatus { id } => {
                if Self::is_task(id.as_str(), manager, displayer) {
                    manager.toggle_task_status(id.as_str());
                    let _ = displayer.notify("Task status toggled successfully.");
                }
            },
            CliCommand::Edit { id, pattern, replace, priority } => match id {
                Some(id) => {
                    if Self::is_task(id.as_str(), manager, displayer) {
                        let (t_desc, t_pri) = match manager.get_task(id.as_str()) {
                            Some(task) => (task.description.clone(), task.priority),
                            None => {
                                proof {
                                    assert(false);
                                }
                                (String::new(), Priority::Low)
                            },
                        };
                        if pattern.is_some() != replace.is_some() {
                            let _ = displayer.notify(
                                "Error: --pattern and --replace must both be provided or both omitted.",
                            );
                            return ;
                        }
                        let new_description: Option<String> = match (&pattern, &replace) {
                            (Some(pat), Some(rep)) => {
                                if str_contains(t_desc.as_str(), pat.as_str()) {
                                    let mut m = String::from_str("Replacing pattern '");
                                    m.append(pat.as_str());
                                    m.append("' with '");
                                    m.append(rep.as_str());
                                    m.append("'");
                                    let _ = displayer.notify(m.as_str());
                                    Some(
                                        str_replace(
                                            t_desc.as_str(),
                                            pat.as_str(),
                                            rep.as_str(),
                                        ),
                                    )
                                } else {
                                    None
                                }
                            },
                            _ => None,
                        };
                        match &priority {
                            Some(p) => {
                                if !(t_pri == *p) {
                                    let mut m = String::from_str(
                                        "Replacing task priority from '",
                                    );
                                    let pt = t_pri.text();
                                    m.append(pt.as_str());
                                    m.append("' to '");
                                    let pt2 = p.text();
                                    m.append(pt2.as_str());
                                    m.append("'");
                                    let _ = displayer.notify(m.as_str());
                                }
                            },
                            None => {},
                        }
                        let final_desc = match new_description {
                            Some(d) => d,
                            None => t_desc,
                        };
                        let final_pri = match priority {
                            Some(p) => p,
                            None => t_pri,
                        };
                        manager.edit_task(id.as_str(), final_desc.as_str(), &final_pri);
                    }
                },
                None => {
                    displayer.handle_edit_task(manager);
                },
            },
        }
    }

    /// Whether the id names a task of the session; an unknown id is
    /// reported through the displayer.
    fn is_task<D: Displayer, T: TraitCliDisplayer<D>>(
        id: &str,
        manager: &mut Manager<D>,
        displayer: &mut T,
    ) -> (r: bool)
        ensures
            *final(manager) == *old(manager),
            r == (find_task(old(manager)@.store.tasks, id@) != -1),
    {
        if manager.get_task(id).is_none() {
            let mut m = String::from_str("Error: Task with ID: ");
            m.append(id);
            m.append(" not found");
            let _ = displayer.notify(m.as_str());
            false
        } else {
            true
        }
    }
}

} // verus!
