use auto_claude::domain::chat::message::{ChatMessage, FunctionCall, ToolCall};
use auto_claude::domain::chat::models::HitlOverrides;
use auto_claude::domain::chat::orchestrator::{
    apply_steering_messages, apply_todo_reminder, collect_output_files, hitl_gate_step,
    hitl_resolution_outcome, output_file_candidates, render_inbox_block, skipped_tool_names,
    steering_preview, HitlGateStep,
};
use auto_claude::domain::hitl::models::{HitlDecisionStatus, HitlRiskLevel};
use auto_claude::domain::hitl::policy::{HitlDefaultAction, HitlPolicyRule};
use auto_claude::domain::session::todo::{TodoItem, TodoManager};

fn call(name: &str) -> ToolCall {
    ToolCall {
        id: format!("id-{name}"),
        kind: "function".to_string(),
        function: FunctionCall {
            name: name.to_string(),
            arguments: "{}".to_string(),
        },
    }
}

fn overrides(require: bool) -> HitlOverrides {
    HitlOverrides {
        enabled: true,
        default_action: HitlDefaultAction::Auto,
        timeout_seconds: 30,
        rules: vec![HitlPolicyRule {
            tool: Some("write_file".to_string()),
            require_approval: require,
            risk_level: HitlRiskLevel::High,
            ..HitlPolicyRule::default()
        }],
    }
}

#[test]
fn gate_lets_unlisted_tools_run() {
    assert_eq!(
        hitl_gate_step(&overrides(true), "read_file", true, true, true),
        HitlGateStep::Proceed
    );
}

#[test]
fn gate_asks_approval_only_with_a_stream() {
    assert_eq!(
        hitl_gate_step(&overrides(true), "write_file", true, true, true),
        HitlGateStep::AskApproval {
            risk_level: HitlRiskLevel::High
        }
    );
    assert_eq!(
        hitl_gate_step(&overrides(true), "write_file", false, true, true),
        HitlGateStep::Block(
            "HITL approval required for write_file, but no session is available to route the approval."
                .to_string()
        )
    );
    assert_eq!(
        hitl_gate_step(&overrides(true), "write_file", true, false, true),
        HitlGateStep::Block(
            "HITL approval required for write_file, but no active run generation is available."
                .to_string()
        )
    );
    assert_eq!(
        hitl_gate_step(&overrides(true), "write_file", true, true, false),
        HitlGateStep::Block(
            "HITL approval required for write_file. Please rerun in streaming mode to approve or disable HITL for this tool."
                .to_string()
        )
    );
}

#[test]
fn human_answers_decide_the_call() {
    assert_eq!(
        hitl_resolution_outcome("write_file", HitlDecisionStatus::Approved, "ops", None),
        None
    );
    assert_eq!(
        hitl_resolution_outcome("write_file", HitlDecisionStatus::Modified, "ops", None),
        None
    );
    assert_eq!(
        hitl_resolution_outcome("write_file", HitlDecisionStatus::Rejected, "ops", Some("too risky"))
            .as_deref(),
        Some("Tool call write_file was rejected by human operator ops: too risky.")
    );
    assert_eq!(
        hitl_resolution_outcome("write_file", HitlDecisionStatus::Rejected, "ops", Some("  "))
            .as_deref(),
        Some("Tool call write_file was rejected by human operator ops.")
    );
    assert_eq!(
        hitl_resolution_outcome("write_file", HitlDecisionStatus::Expired, "ops", None).as_deref(),
        Some("Tool call write_file was not executed because HITL approval timed out.")
    );
    assert_eq!(
        hitl_resolution_outcome("write_file", HitlDecisionStatus::Pending, "ops", None).as_deref(),
        Some("Tool call write_file is still pending HITL approval.")
    );
}

fn open_todos() -> TodoManager {
    let mut todo = TodoManager::default();
    todo.update(vec![TodoItem {
        content: "Ship".to_string(),
        status: "pending".to_string(),
        active_form: "Shipping".to_string(),
    }])
    .unwrap();
    todo
}

#[test]
fn reminds_after_three_rounds_without_todo_write() {
    let todo = open_todos();
    let mut messages = Vec::new();
    let mut rounds = 1;
    apply_todo_reminder(&mut messages, Some(&todo), &vec![call("read_file")], &mut rounds, "remind", "ack");
    assert_eq!(rounds, 2);
    assert!(messages.is_empty());
    apply_todo_reminder(&mut messages, Some(&todo), &vec![call("read_file")], &mut rounds, "remind", "ack");
    assert_eq!(rounds, 3);
    assert_eq!(messages.len(), 2);
    assert_eq!(messages[0].role, "user");
    assert_eq!(messages[0].content.as_deref(), Some("remind"));
    assert_eq!(messages[1].content.as_deref(), Some("ack"));
    apply_todo_reminder(&mut messages, Some(&todo), &vec![call("TodoWrite")], &mut rounds, "remind", "ack");
    assert_eq!(rounds, 0);
    assert_eq!(messages.len(), 2);
    apply_todo_reminder(&mut messages, None, &vec![call("x")], &mut rounds, "remind", "ack");
    assert_eq!(rounds, 0);
}

#[test]
fn steering_interrupt_injects_follow_up_and_reports_skipped_tools() {
    let mut messages = vec![ChatMessage::user("hello")];
    let rendered = render_inbox_block("steering", "[{\"content\": \"stop\"}]");
    assert_eq!(rendered, "<steering>[{\"content\": \"stop\"}]</steering>");
    apply_steering_messages(&mut messages, &rendered, "Noted steering update.");
    assert_eq!(messages.len(), 3);
    assert_eq!(messages[1].content.as_deref(), Some(rendered.as_str()));
    assert_eq!(messages[2].role, "assistant");
    assert_eq!(
        skipped_tool_names(Some(&vec![call("read_file"), call("task")])),
        vec!["read_file", "task"]
    );
    assert!(skipped_tool_names(None).is_empty());
    assert_eq!(steering_preview(Some("  go left ")), "go left");
    assert_eq!(steering_preview(Some("  ")), "收到新的 steering 消息");
}

#[test]
fn output_file_mentions_follow_the_pattern() {
    let reply = "已生成 /tmp/x/outputs/report.md，并更新了 /tmp/x/USER.md 和 'data.csv'。 see notes.txt";
    assert_eq!(
        output_file_candidates(reply),
        vec!["/tmp/x/outputs/report.md", "/tmp/x/USER.md", "data.csv"]
    );
}

#[test]
fn output_files_are_named_and_deduplicated() {
    let found = vec![
        ("/r/outputs/report.md".to_string(), "outputs/report.md".to_string()),
        ("/r/outputs/report.md".to_string(), "/r/outputs/report.md".to_string()),
        ("/r/outputs/t.csv".to_string(), "t.csv".to_string()),
    ];
    let files = collect_output_files(&found);
    assert_eq!(files.len(), 2);
    assert_eq!(files[0].name, "report.md");
    assert_eq!(files[0].path, "/r/outputs/report.md");
    assert_eq!(files[1].name, "t.csv");
}
