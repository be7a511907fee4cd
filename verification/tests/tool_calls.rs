use auto_claude::domain::session::service::{session_tool_call, SessionToolCall};
use auto_claude::domain::tasks::service::{task_tool_call, TaskToolCall};

#[test]
fn task_create_trims_subject_and_keeps_description() {
    assert_eq!(
        task_tool_call("task_create", r#"{"subject":"  Ship it ","description":" as is "}"#),
        Some(TaskToolCall::Create {
            subject: "Ship it".to_string(),
            description: " as is ".to_string()
        })
    );
    assert_eq!(
        task_tool_call("task_create", r#"{"subject":"   "}"#),
        Some(TaskToolCall::Reply("Error: task_create requires a non-empty subject".to_string()))
    );
}

#[test]
fn task_ids_must_be_unsigned_integers() {
    assert_eq!(
        task_tool_call("task_get", r#"{"task_id":7}"#),
        Some(TaskToolCall::Get { task_id: 7 })
    );
    assert_eq!(
        task_tool_call("task_get", r#"{"task_id":"7"}"#),
        Some(TaskToolCall::Reply("Error: task_get requires integer task_id".to_string()))
    );
    assert_eq!(
        task_tool_call("task_bind_worktree", r#"{"task_id":-1,"worktree":"a"}"#),
        Some(TaskToolCall::Reply(
            "Error: task_bind_worktree requires integer task_id".to_string()
        ))
    );
}

#[test]
fn task_update_reads_dependency_lists() {
    assert_eq!(
        task_tool_call(
            "task_update",
            r#"{"task_id":2,"status":" completed ","owner":" ann ","add_blocked_by":[1],"add_blocks":[3,4]}"#
        ),
        Some(TaskToolCall::Update {
            task_id: 2,
            status: Some("completed".to_string()),
            owner: Some(" ann ".to_string()),
            add_blocked_by: vec![1],
            add_blocks: vec![3, 4],
        })
    );
    assert_eq!(
        task_tool_call("task_update", r#"{"task_id":2}"#),
        Some(TaskToolCall::Update {
            task_id: 2,
            status: None,
            owner: None,
            add_blocked_by: Vec::new(),
            add_blocks: Vec::new(),
        })
    );
}

#[test]
fn task_update_refuses_malformed_lists() {
    assert_eq!(
        task_tool_call("task_update", r#"{"task_id":2,"add_blocked_by":5}"#),
        Some(TaskToolCall::Reply("Error: add_blocked_by must be an array".to_string()))
    );
    assert_eq!(
        task_tool_call("task_update", r#"{"task_id":2,"add_blocks":[1,"x"]}"#),
        Some(TaskToolCall::Reply("Error: add_blocks items must be integers".to_string()))
    );
}

#[test]
fn other_names_are_not_task_tools() {
    assert_eq!(task_tool_call("task_list", "not json"), Some(TaskToolCall::List));
    assert_eq!(task_tool_call("claim_task", "{}"), None);
}

#[test]
fn background_run_defaults_timeout() {
    assert_eq!(
        session_tool_call("background_run", r#"{"command":" ls ","timeout":0}"#),
        Some(SessionToolCall::BackgroundRun { command: "ls".to_string(), timeout_secs: 120 })
    );
    assert_eq!(
        session_tool_call("background_run", r#"{"timeout":5}"#),
        Some(SessionToolCall::BackgroundRun { command: String::new(), timeout_secs: 5 })
    );
}

#[test]
fn spawn_teammate_reports_first_missing_argument() {
    assert_eq!(
        session_tool_call("spawn_teammate", r#"{"name":"alice","prompt":"go"}"#),
        Some(SessionToolCall::Reply("Error: spawn_teammate requires a non-empty role".to_string()))
    );
    assert_eq!(
        session_tool_call("spawn_teammate", r#"{"name":"alice","role":"coder","prompt":"go"}"#),
        Some(SessionToolCall::SpawnTeammate {
            name: "alice".to_string(),
            role: "coder".to_string(),
            prompt: "go".to_string(),
        })
    );
}

#[test]
fn send_message_defaults_to_plain_message() {
    assert_eq!(
        session_tool_call("send_message", r#"{"to":"bob","content":"hi"}"#),
        Some(SessionToolCall::SendMessage {
            to: "bob".to_string(),
            content: "hi".to_string(),
            msg_type: "message".to_string(),
        })
    );
    assert_eq!(
        session_tool_call("send_message", r#"{"content":"hi"}"#),
        Some(SessionToolCall::Reply("Error: send_message requires a non-empty to".to_string()))
    );
}

#[test]
fn plan_approval_needs_a_boolean() {
    assert_eq!(
        session_tool_call("plan_approval", r#"{"request_id":"r1","approve":"yes"}"#),
        Some(SessionToolCall::Reply("Error: plan_approval requires boolean approve".to_string()))
    );
    assert_eq!(
        session_tool_call("plan_approval", r#"{"request_id":"r1","approve":false}"#),
        Some(SessionToolCall::PlanApproval {
            request_id: "r1".to_string(),
            approve: false,
            feedback: String::new(),
        })
    );
    assert_eq!(
        session_tool_call("claim_task", r#"{"task_id":3}"#),
        Some(SessionToolCall::ClaimTask { task_id: 3 })
    );
    assert_eq!(session_tool_call("task_list", "{}"), None);
}
