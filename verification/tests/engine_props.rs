use to_do::model::priority::Priority;
use to_do::model::todo_list::TodoList;
use to_do::service::manager::{Manager, ManagerTrait};
use to_do::service::menu_option::{menu_options, MenuOption};
use to_do::text::{str_contains, str_replace};
use to_do::ui::displayer::{Displayer, MockDisplayer};

fn new_manager() -> Manager<MockDisplayer> {
    Manager::new(MockDisplayer::new())
}

#[test]
fn example_session_scenario() {
    // Starting empty: two adds, a toggle, undo, redo, remove, undo.
    let mut manager = new_manager();
    manager.add_task("Buy milk".as_ref(), &Priority::Low);
    assert_eq!(manager.get_tasks()[0].id, "1");
    manager.add_task("Call bank".as_ref(), &Priority::High);
    assert_eq!(manager.get_tasks()[1].id, "2");

    assert!(manager.toggle_task_status("1"));
    assert_eq!(manager.get_tasks()[0].completed, true);

    assert_eq!(manager.undo(), Ok(true));
    assert_eq!(manager.get_tasks()[0].completed, false);

    assert_eq!(manager.redo(), Ok(true));
    assert_eq!(manager.get_tasks()[0].completed, true);

    assert!(manager.remove_task("2"));
    assert_eq!(manager.get_tasks().len(), 1);

    assert_eq!(manager.undo(), Ok(true));
    // The removed task reappears at the end of the list.
    assert_eq!(manager.get_tasks().len(), 2);
    assert_eq!(manager.get_tasks()[1].id, "2");
    assert_eq!(manager.get_tasks()[1].description, "Call bank");
    assert_eq!(manager.get_tasks()[1].priority, Priority::High);
    assert_eq!(manager.get_tasks()[1].completed, false);
}

#[test]
fn undo_of_remove_appends_at_end() {
    // Removing from the middle and undoing moves the task to the end:
    // the order is deliberately not restored.
    let mut manager = new_manager();
    manager.add_task("first".as_ref(), &Priority::Low);
    manager.add_task("second".as_ref(), &Priority::Medium);
    manager.add_task("third".as_ref(), &Priority::High);
    assert!(manager.remove_task("2"));
    assert_eq!(manager.undo(), Ok(true));
    let ids: Vec<String> = manager.get_tasks().iter().map(|t| t.id.clone()).collect();
    assert_eq!(ids, vec!["1", "3", "2"]);
}

#[test]
fn ids_are_never_reused() {
    let mut list = TodoList::new();
    let a = list.add_task("a".to_string(), Priority::Low);
    list.remove_task(a.clone());
    let b = list.add_task("b".to_string(), Priority::Low);
    assert_ne!(a, b);
    assert_eq!(b, "2");
    assert_eq!(list.next_id, 3);
}

#[test]
fn ids_render_in_hexadecimal() {
    let mut list = TodoList::new();
    for i in 0..16 {
        list.add_task(format!("task {}", i), Priority::Low);
    }
    assert_eq!(list.tasks[9].id, "A");
    assert_eq!(list.tasks[14].id, "F");
    assert_eq!(list.tasks[15].id, "10");
    assert_eq!(list.next_id, 17);
}

#[test]
fn save_produces_exact_document() {
    let mut list = TodoList::new();
    list.add_task("Buy milk".to_string(), Priority::Low);
    assert_eq!(
        list.save(),
        "[{\"id\":\"1\",\"description\":\"Buy milk\",\"priority\":\"Low\",\"completed\":false}]"
    );
    let empty = TodoList::new();
    assert_eq!(empty.save(), "[]");
}

#[test]
fn save_escapes_special_characters() {
    let mut list = TodoList::new();
    list.add_task("say \"hi\" \\ twice\n".to_string(), Priority::High);
    let text = list.save();
    assert_eq!(
        text,
        "[{\"id\":\"1\",\"description\":\"say \\\"hi\\\" \\\\ twice\\u000A\",\"priority\":\"High\",\"completed\":false}]"
    );
}

#[test]
fn save_then_load_round_trips() {
    let mut list = TodoList::new();
    list.add_task("plain".to_string(), Priority::Low);
    list.add_task("with \"quotes\" and \\ and \n and tab\t".to_string(), Priority::Medium);
    let id3 = list.add_task("third".to_string(), Priority::High);
    list.toggle_task_status(id3);

    let text = list.save();
    let mut reloaded = TodoList::new();
    reloaded.load_from_str(&text).expect("round trip failed");

    assert_eq!(reloaded.tasks.len(), list.tasks.len());
    for (a, b) in list.tasks.iter().zip(reloaded.tasks.iter()) {
        assert_eq!(a.id, b.id);
        assert_eq!(a.description, b.description);
        assert_eq!(a.priority, b.priority);
        assert_eq!(a.completed, b.completed);
    }
    // The counter is recomputed as one past the largest id.
    assert_eq!(reloaded.next_id, 4);
}

#[test]
fn load_recomputes_next_id_from_largest() {
    let mut list = TodoList::new();
    list.load_from_str(
        "[{\"id\":\"A\",\"description\":\"x\",\"priority\":\"Low\",\"completed\":false},{\"id\":\"3\",\"description\":\"y\",\"priority\":\"High\",\"completed\":true}]",
    )
    .expect("load failed");
    assert_eq!(list.tasks.len(), 2);
    assert_eq!(list.next_id, 11);
    assert_eq!(list.tasks[1].completed, true);
}

#[test]
fn load_decodes_unicode_escapes() {
    let mut list = TodoList::new();
    list.load_from_str(
        "[{\"id\":\"1\",\"description\":\"A\\u0042\\n\",\"priority\":\"Low\",\"completed\":false}]",
    )
    .expect("load failed");
    assert_eq!(list.tasks[0].description, "AB\n");
}

#[test]
fn load_from_invalid_json_reports_error() {
    let mut list = TodoList::new();
    list.add_task("keep me".to_string(), Priority::Low);
    let result = list.load_from_str("invalid json");
    assert!(result.is_err());
    // Nothing changed.
    assert_eq!(list.tasks.len(), 1);
    assert_eq!(list.tasks[0].description, "keep me");
    assert_eq!(list.next_id, 2);
}

#[test]
fn load_rejects_unusable_ids() {
    let mut list = TodoList::new();
    let bad_digit =
        list.load_from_str("[{\"id\":\"XYZ\",\"description\":\"x\",\"priority\":\"Low\",\"completed\":false}]");
    assert!(bad_digit.is_err());
    let too_large =
        list.load_from_str("[{\"id\":\"123456789\",\"description\":\"x\",\"priority\":\"Low\",\"completed\":false}]");
    assert!(too_large.is_err());
    assert_eq!(list.tasks.len(), 0);
    assert_eq!(list.next_id, 1);
}

#[test]
fn load_reports_whether_to_self_heal() {
    let mut list = TodoList::new();
    assert!(list.load(None));
    assert!(list.load(Some("broken")));
    assert!(!list.load(Some("[]")));
    assert_eq!(list.next_id, 1);
}

#[test]
fn undo_after_redone_add_reports_error() {
    // After add, undo, redo, the re-added task carries a fresh id, so
    // the stale undo record no longer applies.
    let mut manager = new_manager();
    manager.add_task("volatile".as_ref(), &Priority::Low);
    assert_eq!(manager.undo(), Ok(true));
    assert_eq!(manager.redo(), Ok(true));
    assert_eq!(manager.get_tasks()[0].id, "2");
    let result = manager.undo();
    assert_eq!(
        result,
        Err("Undo failed: the recorded task is gone".to_string())
    );
    // Nothing changed.
    assert_eq!(manager.get_tasks().len(), 1);
}

#[test]
fn redo_of_stale_remove_reports_error() {
    let mut manager = new_manager();
    manager.add_task("target".as_ref(), &Priority::Low);
    assert!(manager.remove_task("1"));
    assert_eq!(manager.undo(), Ok(true));
    assert_eq!(manager.undo(), Ok(true));
    assert_eq!(manager.redo(), Ok(true));
    assert_eq!(manager.get_tasks()[0].id, "2");
    let result = manager.redo();
    assert_eq!(
        result,
        Err("Redo failed: the command can no longer run".to_string())
    );
}

#[test]
fn fresh_mutation_clears_redo_history() {
    let mut manager = new_manager();
    manager.add_task("one".as_ref(), &Priority::Low);
    assert_eq!(manager.undo(), Ok(true));
    assert_eq!(manager.redo_stack.len(), 1);
    manager.add_task("two".as_ref(), &Priority::Low);
    assert_eq!(manager.redo_stack.len(), 0);
    assert_eq!(manager.redo(), Ok(false));
}

#[test]
fn undo_then_redo_restores_toggle_and_edit() {
    let mut manager = new_manager();
    manager.add_task("subject".as_ref(), &Priority::Low);
    assert!(manager.edit_task("1", "renamed", &Priority::High));
    assert_eq!(manager.undo(), Ok(true));
    assert_eq!(manager.get_tasks()[0].description, "subject");
    assert_eq!(manager.get_tasks()[0].priority, Priority::Low);
    assert_eq!(manager.redo(), Ok(true));
    assert_eq!(manager.get_tasks()[0].description, "renamed");
    assert_eq!(manager.get_tasks()[0].priority, Priority::High);
}

#[test]
fn priority_parses_case_insensitively() {
    assert_eq!(Priority::str_to_priority("HIGH"), Ok(Priority::High));
    assert_eq!(Priority::str_to_priority("1"), Ok(Priority::High));
    assert_eq!(Priority::str_to_priority("Medium"), Ok(Priority::Medium));
    assert_eq!(Priority::str_to_priority("2"), Ok(Priority::Medium));
    assert_eq!(Priority::str_to_priority("low"), Ok(Priority::Low));
    assert_eq!(Priority::str_to_priority("3"), Ok(Priority::Low));
    assert_eq!(
        Priority::str_to_priority("Bogus"),
        Err("Invalid prority value: bogus".to_string())
    );
}

#[test]
fn priority_round_trips_through_text() {
    for p in [Priority::Low, Priority::Medium, Priority::High] {
        assert_eq!(Priority::str_to_priority(&p.text()), Ok(p));
    }
}

#[test]
fn menu_choice_parses_case_insensitively() {
    assert_eq!(MenuOption::str_to_menuoption("1"), Ok(MenuOption::AddTask));
    assert_eq!(MenuOption::str_to_menuoption("U"), Ok(MenuOption::Undo));
    assert_eq!(MenuOption::str_to_menuoption("r"), Ok(MenuOption::Redo));
    assert_eq!(MenuOption::str_to_menuoption("E"), Ok(MenuOption::Exit));
    assert_eq!(
        MenuOption::str_to_menuoption("invalid"),
        Err("The option: invalid is invalid, please try again.".to_string())
    );
}

#[test]
fn menu_table_lists_every_option() {
    let table = menu_options();
    assert_eq!(table.len(), 8);
    assert_eq!(table[0], ("1. Add Task", "1", MenuOption::AddTask));
    assert_eq!(table[7], ("[R] Redo", "r", MenuOption::Redo));
    for (_, key, option) in table.iter() {
        assert_eq!(MenuOption::get_input_key(option), *key);
        assert_eq!(MenuOption::str_to_menuoption(key), Ok(*option));
    }
}

#[test]
fn replace_matches_standard_semantics() {
    assert_eq!(str_replace("Task 1", "Task", "Tarea"), "Task 1".replace("Task", "Tarea"));
    assert_eq!(str_replace("aaa", "aa", "b"), "aaa".replace("aa", "b"));
    assert_eq!(str_replace("ab", "", "-"), "ab".replace("", "-"));
    assert_eq!(str_replace("", "", "-"), "".replace("", "-"));
    assert!(str_contains("hello world", "o w"));
    assert!(str_contains("hello", ""));
    assert!(!str_contains("hello", "world"));
}
