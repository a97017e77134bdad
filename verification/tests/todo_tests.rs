use coindrafts::todo::{SimpleTodoOperation, SimpleTodoState};

#[test]
fn tasks_get_sequential_ids() {
    let mut state = SimpleTodoState::instantiate();
    state.execute_operation(SimpleTodoOperation::AddTodo { text: "one".to_string() }, 1);
    state.execute_operation(SimpleTodoOperation::AddTodo { text: "two".to_string() }, 2);
    assert_eq!(state.todos.len(), 2);
    assert_eq!(state.todos[0].id, 1);
    assert_eq!(state.todos[1].id, 2);
    assert!(!state.todos[0].completed);
}

#[test]
fn edit_toggle_and_delete_act_by_id() {
    let mut state = SimpleTodoState::instantiate();
    state.execute_operation(SimpleTodoOperation::AddTodo { text: "one".to_string() }, 1);
    state.execute_operation(SimpleTodoOperation::AddTodo { text: "two".to_string() }, 2);
    state.execute_operation(
        SimpleTodoOperation::EditTodo { id: 1, text: "first".to_string() },
        3,
    );
    assert_eq!(state.todos[0].text, "first");
    state.execute_operation(SimpleTodoOperation::ToggleTodo { id: 2 }, 4);
    assert!(state.todos[1].completed);
    state.execute_operation(SimpleTodoOperation::ToggleTodo { id: 2 }, 5);
    assert!(!state.todos[1].completed);
    state.execute_operation(SimpleTodoOperation::DeleteTodo { id: 1 }, 6);
    assert_eq!(state.todos.len(), 1);
    assert_eq!(state.todos[0].id, 2);
    // deleted identifiers are never reused
    state.execute_operation(SimpleTodoOperation::AddTodo { text: "three".to_string() }, 7);
    assert_eq!(state.todos[1].id, 3);
}

#[test]
fn unknown_ids_change_nothing() {
    let mut state = SimpleTodoState::instantiate();
    state.execute_operation(SimpleTodoOperation::DeleteTodo { id: 9 }, 1);
    state.execute_operation(SimpleTodoOperation::ToggleTodo { id: 9 }, 2);
    state.execute_operation(
        SimpleTodoOperation::EditTodo { id: 9, text: "x".to_string() },
        3,
    );
    assert!(state.todos.is_empty());
}
