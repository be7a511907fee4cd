use auto_claude::domain::harness::apply::{HarnessApplyExecution, HarnessPreviewSurface};
use auto_claude::domain::harness::approval::{
    new_approval_id, CreateHarnessApprovalInput, HarnessApprovalRecord, HarnessApprovalStatus,
};
use auto_claude::domain::harness::decision::{HarnessDecisionStatus, HarnessRecordError};
use auto_claude::domain::harness::flow::{
    accept_decision, applied_decision_input, approval_input, rollback_decision_input,
    rollback_edits,
};
use auto_claude::domain::harness::decision::{CreateHarnessDecisionInput, HarnessDecisionRecord};
use auto_claude::domain::harness::snapshot::HarnessSnapshot;
use auto_claude::domain::harness::apply::HarnessApplyPreview;

fn preview_surface() -> HarnessPreviewSurface {
    HarnessPreviewSurface {
        surface_key: "system.base".to_string(),
        path: "harness/system/base.md".to_string(),
        changed: true,
        before_sha1: "before".to_string(),
        after_sha1: "after".to_string(),
        before_bytes: 10,
        after_bytes: 12,
        byte_delta: 2,
        before_lines: 1,
        after_lines: 2,
        line_delta: 1,
        before_content: "old base".to_string(),
        after_content: "new base".to_string(),
    }
}

fn input() -> CreateHarnessApprovalInput {
    CreateHarnessApprovalInput {
        decision_id: Some(" hdecision-1 ".to_string()),
        title: " Tighten base guidance ".to_string(),
        summary: " Shorter loops ".to_string(),
        approved_by: " alice ".to_string(),
        approval_note: Some("   ".to_string()),
        mode_scope: None,
        related_trace_ids: vec![" trace-1 ".to_string(), "trace-1".to_string(), "".to_string()],
        snapshot_before_id: " hsnap-a ".to_string(),
        snapshot_after_id: "hsnap-b".to_string(),
        changed_surfaces: vec![preview_surface()],
        runtime_reloaded: true,
        status: HarnessApprovalStatus::Approved,
        reverted_from_approval_id: None,
    }
}

#[test]
fn creates_approval_with_trimmed_fields() {
    let approval = HarnessApprovalRecord::create(input()).unwrap();
    assert!(approval.approval_id.starts_with("happroval-"));
    assert_eq!(approval.decision_id.as_deref(), Some("hdecision-1"));
    assert_eq!(approval.title, "Tighten base guidance");
    assert_eq!(approval.approved_by, "alice");
    assert_eq!(approval.approval_note, None);
    assert_eq!(approval.mode_scope, "memory_only");
    assert_eq!(approval.related_trace_ids, vec!["trace-1"]);
    assert_eq!(approval.snapshot_before_id, "hsnap-a");
    assert_eq!(approval.changed_surfaces.len(), 1);
    assert_eq!(approval.changed_surfaces[0].before_content, "old base");
    assert_eq!(approval.status, HarnessApprovalStatus::Approved);
}

#[test]
fn approval_without_changes_is_refused() {
    let mut bad = input();
    bad.changed_surfaces.clear();
    let err = HarnessApprovalRecord::create(bad).unwrap_err();
    assert_eq!(err, HarnessRecordError::NoChangedSurface);
    assert_eq!(
        err.message(),
        "at least one changed surface is required for approval"
    );
}

#[test]
fn approval_requires_approver() {
    let mut bad = input();
    bad.approved_by = " ".to_string();
    let err = HarnessApprovalRecord::create(bad).unwrap_err();
    assert_eq!(err.message(), "approved_by is required");
}

#[test]
fn approval_ids_are_prefixed() {
    assert!(new_approval_id().starts_with("happroval-"));
}

fn snapshot(id: &str) -> HarnessSnapshot {
    HarnessSnapshot {
        snapshot_id: id.to_string(),
        generated_at_ms: 1,
        memory_only_self_evolution: true,
        surfaces: Vec::new(),
    }
}

fn execution() -> HarnessApplyExecution {
    HarnessApplyExecution {
        snapshot_before: snapshot("hsnap-b"),
        snapshot_after: snapshot("hsnap-c"),
        preview: HarnessApplyPreview {
            snapshot_before: snapshot("hsnap-b"),
            expected_snapshot_id: None,
            changed_surface_count: 1,
            surfaces: vec![preview_surface()],
        },
        updated_surfaces: Vec::new(),
    }
}

#[test]
fn rollback_restores_earlier_content_and_records_decision() {
    let approval = HarnessApprovalRecord::create(input()).unwrap();
    let edits = rollback_edits(&approval);
    assert_eq!(edits.len(), 1);
    assert_eq!(edits[0].surface_key, "system.base");
    assert_eq!(edits[0].content, "old base");

    let decision_input = rollback_decision_input(&approval, "hsnap-b", "hsnap-c");
    assert_eq!(decision_input.title, "Rollback Tighten base guidance");
    assert_eq!(
        decision_input.summary,
        "Revert harness surfaces back to snapshot hsnap-a"
    );
    assert_eq!(
        decision_input.rationale,
        format!("Manual rollback from approval {}", approval.approval_id)
    );
    assert_eq!(decision_input.changed_surfaces, vec!["system.base"]);
    assert_eq!(decision_input.status, Some(HarnessDecisionStatus::Accepted));
    let decision = HarnessDecisionRecord::create(decision_input).unwrap();
    assert_eq!(decision.snapshot_before_id.as_deref(), Some("hsnap-b"));
    assert_eq!(decision.snapshot_after_id.as_deref(), Some("hsnap-c"));

    let rollback = approval_input(
        &decision,
        "alice".to_string(),
        None,
        &execution(),
        HarnessApprovalStatus::Reverted,
        Some(approval.approval_id.clone()),
    );
    assert_eq!(rollback.snapshot_before_id, "hsnap-b");
    assert_eq!(rollback.snapshot_after_id, "hsnap-c");
    assert_eq!(rollback.status, HarnessApprovalStatus::Reverted);
    assert!(rollback.runtime_reloaded);
    assert_eq!(rollback.changed_surfaces.len(), 1);
}

#[test]
fn applied_decision_defaults_snapshots_to_execution() {
    let d = applied_decision_input(
        "t".to_string(),
        "s".to_string(),
        "r".to_string(),
        Vec::new(),
        Vec::new(),
        Vec::new(),
        None,
        Vec::new(),
        None,
        &execution(),
    );
    assert_eq!(d.snapshot_before_id.as_deref(), Some("hsnap-b"));
    assert_eq!(d.snapshot_after_id.as_deref(), Some("hsnap-c"));
    assert_eq!(d.status, Some(HarnessDecisionStatus::Accepted));
}

#[test]
fn accepting_a_stored_decision_keeps_its_earlier_snapshot() {
    let existing = HarnessDecisionRecord::create(CreateHarnessDecisionInput {
        title: "t".to_string(),
        summary: "s".to_string(),
        rationale: "r".to_string(),
        expected_impact: Vec::new(),
        changed_surfaces: Vec::new(),
        validation_plan: Vec::new(),
        mode_scope: None,
        status: None,
        related_trace_ids: Vec::new(),
        snapshot_before_id: Some("hsnap-x".to_string()),
        snapshot_after_id: None,
    })
    .unwrap();
    let accepted = accept_decision(existing, "hsnap-b", "hsnap-c");
    assert_eq!(accepted.status, HarnessDecisionStatus::Accepted);
    assert_eq!(accepted.snapshot_before_id.as_deref(), Some("hsnap-x"));
    assert_eq!(accepted.snapshot_after_id.as_deref(), Some("hsnap-c"));
}
