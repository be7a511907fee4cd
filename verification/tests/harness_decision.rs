use auto_claude::domain::harness::decision::{
    CreateHarnessDecisionInput, HarnessDecisionRecord, HarnessDecisionStatus, HarnessRecordError,
};

fn input() -> CreateHarnessDecisionInput {
    CreateHarnessDecisionInput {
        title: " Improve harness ".to_string(),
        summary: " Tighten tool guidance ".to_string(),
        rationale: " Reduce noisy tool churn ".to_string(),
        expected_impact: vec![" fewer retries ".to_string(), "fewer retries".to_string()],
        changed_surfaces: vec!["tools.descriptions".to_string()],
        validation_plan: vec!["run trace review".to_string()],
        mode_scope: None,
        status: Some(HarnessDecisionStatus::Accepted),
        related_trace_ids: vec![" trace-1 ".to_string()],
        snapshot_before_id: Some(" before ".to_string()),
        snapshot_after_id: Some(" after ".to_string()),
    }
}

#[test]
fn creates_memory_only_decision_by_default() {
    let decision = HarnessDecisionRecord::create(input()).unwrap();

    assert_eq!(decision.mode_scope, "memory_only");
    assert_eq!(decision.status, HarnessDecisionStatus::Accepted);
    assert_eq!(decision.expected_impact, vec!["fewer retries"]);
    assert_eq!(decision.snapshot_before_id.as_deref(), Some("before"));
}

#[test]
fn decision_fields_are_trimmed_and_id_is_prefixed() {
    let decision = HarnessDecisionRecord::create(input()).unwrap();
    assert!(decision.decision_id.starts_with("hdecision-"));
    assert_eq!(decision.title, "Improve harness");
    assert_eq!(decision.related_trace_ids, vec!["trace-1"]);
    assert_eq!(decision.snapshot_after_id.as_deref(), Some("after"));
}

#[test]
fn blank_title_is_refused() {
    let mut bad = input();
    bad.title = "   ".to_string();
    let err = HarnessDecisionRecord::create(bad).unwrap_err();
    assert_eq!(err, HarnessRecordError::Required { field: "title".to_string() });
}

#[test]
fn unknown_mode_scope_is_refused() {
    let mut bad = input();
    bad.mode_scope = Some("everything".to_string());
    let err = HarnessDecisionRecord::create(bad).unwrap_err();
    assert_eq!(err, HarnessRecordError::InvalidModeScope);
}

#[test]
fn all_modes_scope_is_accepted_case_insensitively() {
    let mut ok = input();
    ok.mode_scope = Some(" ALL_MODES ".to_string());
    ok.status = None;
    let decision = HarnessDecisionRecord::create(ok).unwrap();
    assert_eq!(decision.mode_scope, "all_modes");
    assert_eq!(decision.status, HarnessDecisionStatus::Proposed);
}
