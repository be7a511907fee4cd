use auto_claude::domain::hitl::models::{HitlDecisionRequest, HitlRiskLevel};
use auto_claude::domain::memory::models::UserMemorySnapshot;
use auto_claude::domain::session::message_bus::MessageBus;
use auto_claude::domain::session::todo::TodoItem;
use auto_claude::domain::session::service::{
    drain_steering_messages, HitlRegistry, PlanRequests, RunGenerations, SessionService,
    SnapshotCache,
};

#[test]
fn isolates_sessions_and_eviction() {
    let mut service = SessionService::with_max_sessions("/repo", 1);
    let a = service.get_or_create("a");
    assert!(a.created);
    assert!(a.evicted.is_empty());
    let updated = service.update_todos(
        "a",
        vec![TodoItem {
            content: "Task A".to_string(),
            status: "pending".to_string(),
            active_form: "Doing A".to_string(),
        }],
    );
    assert!(matches!(updated, Some(Ok(_))));
    assert_eq!(service.context("a").unwrap().todo.list_items().len(), 1);
    let b = service.get_or_create("b");
    assert!(b.created);
    assert!(service.context("b").unwrap().todo.list_items().is_empty());
    assert_eq!(service.context("b").unwrap().session_dir, "/repo/.sessions/b");
    assert_eq!(b.evicted, vec!["a".to_string()]);
    assert!(service.context("a").is_none());
    assert!(!service.get("a"));
    assert!(service.delete("b"));
    assert!(!service.get("b"));
}

#[test]
fn least_recently_used_session_is_evicted_first() {
    let mut service = SessionService::with_max_sessions("/repo", 2);
    service.get_or_create(" a ");
    service.get_or_create("b");
    assert!(service.get("a"));
    let c = service.get_or_create("c");
    assert_eq!(c.evicted, vec!["b".to_string()]);
    assert_eq!(service.session_ids(), vec!["a".to_string(), "c".to_string()]);
    let again = service.get_or_create("a");
    assert!(!again.created);
    assert_eq!(service.session_ids(), vec!["c".to_string(), "a".to_string()]);
    assert_eq!(service.session_dir("a"), "/repo/.sessions/a");
    let zero = SessionService::with_max_sessions("/repo", 0);
    assert!(zero.session_ids().is_empty());
}

#[test]
fn plan_requests_can_be_approved_after_inbox_read() {
    let bus = MessageBus::new("/repo/.sessions/demo/team");
    let inbox_file = format!(
        "{}\n",
        r#"{"type":"plan_request","from":"alice","content":"Please review this plan","timestamp":1.5,"request_id":"req-1"}"#
    );
    let inbox = bus.inbox_messages(&inbox_file);
    assert_eq!(inbox.len(), 1);
    let first: serde_json::Value = serde_json::from_str(&inbox[0]).unwrap();
    assert_eq!(first["type"], "plan_request");

    let mut plans = PlanRequests::new();
    plans.register_inbox(&inbox);
    let (result, response) = plans.handle_plan_approval("req-1", true, "looks good");
    assert_eq!(result, "Plan approved for 'alice'");
    let response = response.unwrap();
    assert_eq!(response.to, "alice");
    assert_eq!(response.sender(), "lead");
    assert_eq!(response.message_type(), "plan_approval_response");
    assert_eq!(response.request_id, "req-1");
    assert!(response.approve);
    assert_eq!(response.feedback, "looks good");
    assert_eq!(plans.requests()[0].status, "approved");
    let (result, to) = plans.handle_plan_approval("req-2", false, "");
    assert_eq!(result, "Error: Unknown plan request_id 'req-2'");
    assert!(to.is_none());
    plans.register("  ", "bob", "ignored");
    assert_eq!(plans.requests().len(), 1);
}

#[test]
fn steering_messages_use_dedicated_inbox() {
    let mut runs = RunGenerations::new();
    let generation = runs.begin_agent_run();
    assert_eq!(runs.active_run_generation(), Some(generation));
    let (matched, dropped) = drain_steering_messages(&vec![Some(generation)], generation);
    assert_eq!(matched, vec![0]);
    assert_eq!(dropped, 0);
    runs.end_agent_run(generation);
    assert_eq!(runs.active_run_generation(), None);
}

#[test]
fn stale_steering_messages_do_not_leak_into_next_run() {
    let mut runs = RunGenerations::new();
    let first_generation = runs.begin_agent_run();
    runs.end_agent_run(first_generation);
    let second_generation = runs.begin_agent_run();
    assert_ne!(first_generation, second_generation);
    let (matched, dropped) =
        drain_steering_messages(&vec![Some(first_generation), None], second_generation);
    assert!(matched.is_empty());
    assert_eq!(dropped, 2);
    runs.end_agent_run(first_generation);
    assert_eq!(runs.active_run_generation(), Some(second_generation));
}

#[test]
fn caches_snapshots_per_user() {
    let mut cache = SnapshotCache::new();
    let snap = |md: &str| UserMemorySnapshot {
        user_id: "u".to_string(),
        user_md: md.to_string(),
        memory_md: String::new(),
    };
    assert!(cache.get_cached_snapshot("u").is_none());
    cache.put_cached_snapshot(snap("one"));
    cache.put_cached_snapshot(snap("two"));
    assert_eq!(cache.snapshots().len(), 1);
    assert_eq!(cache.get_cached_snapshot("u").unwrap().user_md, "two");
    assert!(cache.clear_cached_snapshot("u"));
    assert!(!cache.clear_cached_snapshot("u"));
}

#[test]
fn keeps_pending_confirmations_until_resolved() {
    let mut registry = HitlRegistry::new();
    let mut first = HitlDecisionRequest::new_tool_call(
        "s", 1, "write_file", "{}".to_string(), HitlRiskLevel::High, 0, None,
    )
    .unwrap();
    first.approval_id = "a".to_string();
    first.created_at_ms = 20;
    let mut second = first.clone();
    second.approval_id = "b".to_string();
    second.created_at_ms = 10;
    registry.register_hitl_request(first);
    registry.register_hitl_request(second);
    let pending = registry.list_pending_hitl();
    assert_eq!(pending[0].approval_id, "b");
    assert_eq!(pending[1].approval_id, "a");
    assert!(registry.resolve_hitl("a"));
    assert!(!registry.resolve_hitl("a"));
    assert_eq!(registry.list_pending_hitl().len(), 1);
}

#[test]
fn inbox_messages_other_than_plan_requests_register_nothing() {
    let mut plans = PlanRequests::new();
    plans.register_inbox(&vec![
        r#"{"type":"message","from":"bob","content":"hi","request_id":"x"}"#.to_string(),
        r#"{"type":"plan_request","from":"bob","request_id":"   "}"#.to_string(),
        "not json".to_string(),
        r#"{"type":"plan_request","request_id":" r2 "}"#.to_string(),
    ]);
    assert_eq!(plans.requests().len(), 1);
    assert_eq!(plans.requests()[0].request_id, "r2");
    assert_eq!(plans.requests()[0].from, "");
    assert_eq!(plans.requests()[0].status, "pending");
}

#[test]
fn sessions_keep_their_own_todo_lists() {
    let mut service = SessionService::with_max_sessions("/repo", 2);
    service.get_or_create("a");
    service.get_or_create("b");
    let item = TodoItem {
        content: "Only in b".to_string(),
        status: "in_progress".to_string(),
        active_form: "Working in b".to_string(),
    };
    assert!(matches!(service.update_todos("b", vec![item]), Some(Ok(_))));
    assert!(service.context("a").unwrap().todo.list_items().is_empty());
    let again = service.get_or_create("b");
    assert!(!again.created);
    assert_eq!(service.context("b").unwrap().todo.list_items()[0].content, "Only in b");
    assert!(service.update_todos("zzz", Vec::new()).is_none());
}
