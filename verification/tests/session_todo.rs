use auto_claude::domain::session::todo::{TodoError, TodoItem, TodoManager};

fn item(content: &str, status: &str, active_form: &str) -> TodoItem {
    TodoItem {
        content: content.to_string(),
        status: status.to_string(),
        active_form: active_form.to_string(),
    }
}

#[test]
fn validates_and_renders_todos() {
    let mut manager = TodoManager::default();
    let output = manager
        .update(vec![
            TodoItem {
                content: "Write tests".to_string(),
                status: "in_progress".to_string(),
                active_form: "Writing tests".to_string(),
            },
            TodoItem {
                content: "Review".to_string(),
                status: "pending".to_string(),
                active_form: "Reviewing".to_string(),
            },
        ])
        .unwrap();

    assert!(output.contains("[>] Write tests <- Writing tests"));
    assert!(manager.has_open_items());
}

#[test]
fn renders_exact_text_with_completed_count() {
    let mut manager = TodoManager::default();
    let output = manager
        .update(vec![
            item(" Write tests ", " IN_PROGRESS ", " Writing tests "),
            item("Review", "completed", "Reviewing"),
            item("Ship", "pending", "Shipping"),
        ])
        .unwrap();
    assert_eq!(
        output,
        "[>] Write tests <- Writing tests\n[x] Review\n[ ] Ship\n\n(1/3 completed)"
    );
    assert_eq!(manager.render(), output);
    assert_eq!(manager.list_items()[0].status, "in_progress");
}

#[test]
fn empty_list_renders_no_todos_and_has_no_open_items() {
    let mut manager = TodoManager::default();
    assert_eq!(manager.update(Vec::new()).unwrap(), "No todos.");
    assert!(!manager.has_open_items());
    manager
        .update(vec![item("Done", "completed", "Doing")])
        .unwrap();
    assert!(!manager.has_open_items());
}

#[test]
fn refusals_name_the_first_faulty_item_and_keep_the_list() {
    let mut manager = TodoManager::default();
    manager.update(vec![item("Keep", "pending", "Keeping")]).unwrap();

    let err = manager
        .update(vec![item("ok", "pending", "ok"), item("  ", "pending", "x")])
        .unwrap_err();
    assert_eq!(err, TodoError::ContentRequired { index: 1 });
    assert_eq!(err.message(), "Item 1: content required");

    let err = manager
        .update(vec![item("a", " Done ", "x")])
        .unwrap_err();
    assert_eq!(err.message(), "Item 0: invalid status 'done'");

    let err = manager.update(vec![item("a", "pending", " ")]).unwrap_err();
    assert_eq!(err.message(), "Item 0: activeForm required");

    let err = manager
        .update(vec![item("a", "in_progress", "x"), item("b", "in_progress", "y")])
        .unwrap_err();
    assert_eq!(err, TodoError::MultipleInProgress);
    assert_eq!(err.message(), "Only one in_progress allowed");

    let many = (0..21).map(|i| item(&format!("t{i}"), "pending", "x")).collect();
    let err = manager.update(many).unwrap_err();
    assert_eq!(err.message(), "Max 20 todos");

    assert_eq!(manager.list_items().len(), 1);
    assert_eq!(manager.list_items()[0].content, "Keep");
}
