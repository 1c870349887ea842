use to_do::model::priority::Priority;
use to_do::service::manager::{Manager, ManagerTrait};
use to_do::ui::displayer::{Displayer, MockDisplayer};

fn new_manager() -> Manager<MockDisplayer> {
    Manager::new(MockDisplayer::new())
}

#[test]
fn test_new_manager() {
    let manager = new_manager();
    assert_eq!(manager.todo_list.tasks.len(), 0);
    assert_eq!(manager.undo_stack.len(), 0);
    assert_eq!(manager.redo_stack.len(), 0);
    assert!(manager.displayer.is_some());
}

#[test]
fn manager_test_add_task() {
    let mut manager = new_manager();
    manager.add_task("Test task".as_ref(), &Priority::High);
    assert_eq!(manager.todo_list.tasks.len(), 1);
    assert_eq!(manager.undo_stack.len(), 1);
    assert_eq!(manager.redo_stack.len(), 0);
    assert_eq!(manager.todo_list.tasks[0].description, "Test task");
    assert_eq!(manager.todo_list.tasks[0].priority, Priority::High);
}

#[test]
fn manager_test_complete_task() {
    let mut manager = new_manager();
    let id = manager
        .todo_list
        .add_task("Test task".to_string(), Priority::Medium);
    let result = manager.toggle_task_status(id.as_ref());
    assert!(result);
    assert_eq!(manager.todo_list.tasks[0].completed, true);
    assert_eq!(manager.undo_stack.len(), 1);
    assert_eq!(manager.redo_stack.len(), 0);
}

#[test]
fn manager_test_complete_task_not_found() {
    let mut manager = new_manager();
    let result = manager.toggle_task_status("notfound".as_ref());
    assert!(!result);
    assert_eq!(manager.undo_stack.len(), 0);
}

#[test]
fn manager_test_remove_task() {
    let mut manager = new_manager();
    let id = manager
        .todo_list
        .add_task("Test task".to_string(), Priority::Low);
    let result = manager.remove_task(id.as_ref());
    assert!(result);
    assert_eq!(manager.todo_list.tasks.len(), 0);
    assert_eq!(manager.undo_stack.len(), 1);
    assert_eq!(manager.redo_stack.len(), 0);
}

#[test]
fn test_undo_add_task() {
    let mut manager = new_manager();
    manager.add_task("Test task".as_ref(), &Priority::High);
    let result = manager.undo().expect("Undo failed");
    assert!(result);
    assert_eq!(manager.todo_list.tasks.len(), 0);
    assert_eq!(manager.undo_stack.len(), 0);
    assert_eq!(manager.redo_stack.len(), 1);
}

#[test]
fn test_redo_add_task() {
    let mut manager = new_manager();
    manager.add_task("Test task".as_ref(), &Priority::High);
    manager.undo().expect("Undo failed");
    let result = manager.redo().expect("Redo failed");
    assert!(result);
    assert_eq!(manager.todo_list.tasks.len(), 1);
    assert_eq!(manager.undo_stack.len(), 1);
    assert_eq!(manager.redo_stack.len(), 0);
}

#[test]
fn test_undo_empty() {
    let mut manager = new_manager();
    let result = manager.undo().expect("Undo failed");
    assert!(!result);
}

#[test]
fn test_undo_empty_stack() {
    let mut manager = new_manager();
    let result = manager.undo();
    assert_eq!(result, Ok(false));
}

#[test]
fn test_redo_empty_stack() {
    let mut manager = new_manager();
    let result = manager.redo();
    assert_eq!(result, Ok(false));
}
