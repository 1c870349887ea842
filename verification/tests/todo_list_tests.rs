use to_do::model::priority::Priority;
use to_do::model::todo_list::TodoList;

#[test]
fn test_new_todo_list() {
    let todo_list = TodoList::new();
    assert_eq!(todo_list.tasks.len(), 0);
    assert_eq!(todo_list.next_id, 1);
    assert_eq!(todo_list.file_name, "todo_list.json");
}

#[test]
fn todo_list_test_add_task() {
    let mut todo_list = TodoList::new();
    let id = todo_list.add_task("Test task".to_string(), Priority::High);
    assert_eq!(todo_list.tasks.len(), 1);
    assert_eq!(todo_list.next_id, 2);
    assert_eq!(todo_list.tasks[0].id, id);
    assert_eq!(todo_list.tasks[0].description, "Test task");
    assert_eq!(todo_list.tasks[0].priority, Priority::High);
    assert_eq!(todo_list.tasks[0].completed, false);
}

#[test]
fn todo_list_test_complete_task() {
    let mut todo_list = TodoList::new();
    let id = todo_list.add_task("Test task".to_string(), Priority::Medium);
    todo_list.toggle_task_status(id.clone());
    assert_eq!(todo_list.tasks[0].completed, true);
    // Toggle again to test flipping back
    todo_list.toggle_task_status(id.clone());
    assert_eq!(todo_list.tasks[0].completed, false);
}

#[test]
fn todo_list_test_remove_task() {
    let mut todo_list = TodoList::new();
    let id = todo_list.add_task("Test task".to_string(), Priority::Low);
    todo_list.remove_task(id.clone());
    assert_eq!(todo_list.tasks.len(), 0);
}

#[test]
fn test_edit_task() {
    let mut todo_list = TodoList::new();
    let id = todo_list.add_task("Test task".into(), Priority::High);
    let new_text = "Edited text";
    let new_priority = Priority::Low;
    todo_list.edit_task(id.as_ref(), (new_text, &new_priority));

    let edited_task = todo_list.get_task_mut(id.as_ref()).expect("Task not found");
    assert_eq!(edited_task.description, new_text.to_string())
}

#[test]
fn test_get_task_mut_exist() {
    let mut todo_list = TodoList::new();
    let id = todo_list.add_task("Test task".into(), Priority::High);

    let task = todo_list.get_task_mut(id.as_ref());
    assert!(task.is_some())
}

#[test]
fn test_task_mut_not_found() {
    let mut todo_list = TodoList::new();
    let id = "2".to_string();
    let task = todo_list.get_task_mut(id.as_ref());
    assert!(task.is_none())
}
