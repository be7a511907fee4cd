use auto_claude::domain::tasks::service::{merge_ids, TaskRecord, TaskService, TaskUpdate};

fn board() -> TaskService {
    TaskService::new(Vec::new())
}

#[test]
fn finds_first_claimable_task() {
    let mut service = board();
    service.create("Blocked task", "", 1).unwrap();
    service.create("Claimable task", "", 2).unwrap();
    service.update(1, None, None, &vec![99], &vec![], 3).unwrap();

    let claimable = service.find_claimable_task().unwrap();
    assert_eq!(claimable.id, 2);
    assert_eq!(claimable.subject, "Claimable task");
}

#[test]
fn creates_updates_and_binds_tasks() {
    let mut service = board();
    let first = service.create("First task", "", 10).unwrap();
    assert_eq!(first.id, 1);
    assert_eq!(first.status, "pending");
    let second = service.create("Second task", "", 11).unwrap();
    assert_eq!(second.id, 2);

    assert_eq!(service.claim(1, "lead", 12).unwrap(), "Claimed task #1 for lead");
    service.update(2, None, None, &vec![1], &vec![], 13).unwrap();
    assert_eq!(service.get(2).unwrap().blocked_by, vec![1]);
    service.bind_worktree(1, "demo", Some("lead"), 14).unwrap();
    service.update(1, Some("completed"), None, &vec![], &vec![], 15).unwrap();
    let second_task = service.get(2).unwrap();
    assert!(second_task.blocked_by.is_empty());
    assert!(service.list_all().contains("#1: First task owner=lead wt=demo"));
    assert_eq!(
        service.list_all(),
        "[x] #1: First task owner=lead wt=demo\n[ ] #2: Second task"
    );
}

#[test]
fn reloads_persisted_tasks_and_advances_next_id() {
    let mut first_service = board();
    first_service.create("Persisted task", "", 1).unwrap();
    first_service
        .update(1, Some("in_progress"), Some("lead"), &vec![], &vec![], 2)
        .unwrap();

    let mut second_service = TaskService::new(first_service.records());
    let persisted = second_service.get(1).unwrap();
    assert_eq!(persisted.status, "in_progress");
    assert_eq!(persisted.owner, "lead");

    let created = second_service.create("Second task", "", 3).unwrap();
    assert_eq!(created.id, 2);
}

#[test]
fn refuses_bad_updates_and_deletes() {
    let mut service = board();
    assert_eq!(
        service.create("   ", "", 1).unwrap_err().message(),
        "subject cannot be empty"
    );
    service.create(" Task ", "details", 1).unwrap();
    assert_eq!(service.get(1).unwrap().subject, "Task");
    assert_eq!(service.get(7).unwrap_err().message(), "Task 7 not found");
    assert_eq!(
        service
            .update(1, Some("bogus"), None, &vec![], &vec![], 2)
            .unwrap_err()
            .message(),
        "Invalid status: bogus"
    );
    match service.update(1, Some(" deleted "), None, &vec![], &vec![], 3).unwrap() {
        TaskUpdate::Deleted { message } => assert_eq!(message, "Task 1 deleted"),
        other => panic!("unexpected {other:?}"),
    }
    assert!(!service.task_exists(1));
    assert_eq!(service.list_all(), "No tasks.");
    assert_eq!(service.claim(1, "x", 4).unwrap_err().message(), "Task 1 not found");
}

#[test]
fn binds_unbinds_and_merges_ids() {
    let mut service = board();
    service.create("A", "", 1).unwrap();
    let bound = service.bind_worktree(1, "wt", None, 2).unwrap();
    assert_eq!(bound.status, "in_progress");
    assert_eq!(bound.worktree, "wt");
    let unbound = service.unbind_worktree(1, 3).unwrap();
    assert_eq!(unbound.worktree, "");
    assert_eq!(unbound.updated_at, 3);
    assert_eq!(merge_ids(&vec![5, 1, 5], &vec![3, 1]), vec![1, 3, 5]);
    assert_eq!(merge_ids(&vec![], &vec![]), Vec::<u64>::new());
    match service.update(1, None, None, &vec![4, 2], &vec![9, 9], 5).unwrap() {
        TaskUpdate::Saved { task } => {
            assert_eq!(task.blocked_by, vec![2, 4]);
            assert_eq!(task.blocks, vec![9]);
        }
        other => panic!("unexpected {other:?}"),
    }
}

#[test]
fn board_keeps_records_in_id_order() {
    let record = |id: u64, subject: &str| TaskRecord {
        id,
        subject: subject.to_string(),
        description: String::new(),
        status: "pending".to_string(),
        owner: String::new(),
        worktree: String::new(),
        blocked_by: Vec::new(),
        blocks: Vec::new(),
        created_at: 0,
        updated_at: 0,
    };
    let service = TaskService::new(vec![record(5, "five"), record(2, "two"), record(5, "again")]);
    let ids: Vec<u64> = service.records().iter().map(|t| t.id).collect();
    assert_eq!(ids, vec![2, 5]);
    assert_eq!(service.get(5).unwrap().subject, "again");
    assert_eq!(service.next_task_id(), 6);
}

#[test]
fn blank_creates_use_no_id() {
    let mut service = board();
    assert_eq!(service.create("One", "", 1).unwrap().id, 1);
    assert!(service.create("   ", "", 2).is_err());
    assert_eq!(service.next_task_id(), 2);
    assert_eq!(service.create("Two", "", 3).unwrap().id, 2);
    assert_eq!(service.next_task_id(), 3);
}
