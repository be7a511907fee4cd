use auto_claude::domain::hitl::models::{
    preview_json, HitlDecisionRequest, HitlDecisionResolution, HitlDecisionStatus,
    HitlRequestError, HitlRiskLevel,
};

#[test]
fn creates_pending_tool_call_request() {
    let request = HitlDecisionRequest::new_tool_call(
        "session-a",
        7,
        "write_file",
        "{\"path\":\"a.md\"}".to_string(),
        HitlRiskLevel::High,
        60,
        Some("写入文件".to_string()),
    )
    .unwrap();

    assert!(request.approval_id.starts_with("hitl-"));
    assert_eq!(request.session_id, "session-a");
    assert_eq!(request.generation, 7);
    assert_eq!(request.tool_name.as_deref(), Some("write_file"));
    assert_eq!(request.display_name.as_deref(), Some("写入文件"));
    assert_eq!(request.title, "确认执行：写入文件");
    assert_eq!(request.status, HitlDecisionStatus::Pending);
    assert!(request.expires_at_ms.is_some());
}

#[test]
fn names_the_action_and_previews_arguments() {
    let request = HitlDecisionRequest::new_tool_call(
        "s",
        1,
        " bash ",
        "{\"command\":\"ls\",\"cwd\":\".\"}".to_string(),
        HitlRiskLevel::Medium,
        0,
        Some("  ".to_string()),
    )
    .unwrap();
    assert_eq!(request.title, "确认执行：bash");
    assert_eq!(request.summary, "模型请求执行“bash”，需要人工确认后继续。");
    assert_eq!(request.display_name, None);
    assert_eq!(request.expires_at_ms, None);
    assert_eq!(
        request.preview.as_deref(),
        Some("{\n  \"command\": \"ls\",\n  \"cwd\": \".\"\n}")
    );
    let created = request.created_at_ms;
    let timed = HitlDecisionRequest::new_tool_call(
        "s", 1, "bash", "{}".to_string(), HitlRiskLevel::Low, 2, None,
    )
    .unwrap();
    assert_eq!(timed.expires_at_ms, Some(timed.created_at_ms + 2000));
    assert!(timed.created_at_ms >= created);
    assert_eq!(
        HitlDecisionRequest::new_tool_call("s", 1, "  ", "{}".to_string(), HitlRiskLevel::Low, 0, None)
            .unwrap_err(),
        HitlRequestError::ToolNameEmpty
    );
    assert_eq!(HitlRequestError::ToolNameEmpty.message(), "tool_name cannot be empty");
    assert_eq!(preview_json("not json", 3), "not...[truncated]");
    assert_eq!(preview_json("[1,2]", 100), "[\n  1,\n  2\n]");
}

#[test]
fn builds_resolutions() {
    let approved = HitlDecisionResolution::approved("a".to_string(), "me".to_string(), None);
    assert_eq!(approved.status, HitlDecisionStatus::Approved);
    let rejected =
        HitlDecisionResolution::rejected("a".to_string(), "me".to_string(), Some("no".to_string()));
    assert_eq!(rejected.note.as_deref(), Some("no"));
    let modified = HitlDecisionResolution::modified(
        "a".to_string(),
        "me".to_string(),
        None,
        "{\"x\":1}".to_string(),
    );
    assert_eq!(modified.modified_arguments.as_deref(), Some("{\"x\":1}"));
    let expired = HitlDecisionResolution::expired("a".to_string());
    assert_eq!(expired.resolved_by, "system-timeout");
    assert_eq!(expired.note.as_deref(), Some("HITL approval timed out"));
    assert_eq!(expired.status, HitlDecisionStatus::Expired);
}
