//! The records that applying and rolling back harness edits write: the edits
//! a rollback makes, and the decision and approval inputs of both flows.

use vstd::prelude::*;

use crate::domain::harness::apply::{HarnessApplyExecution, HarnessPreviewSurface, HarnessSurfaceEdit};
use crate::domain::harness::approval::{
    CreateHarnessApprovalInput, HarnessApprovalRecord, HarnessApprovalStatus,
};
use crate::domain::harness::decision::{
    CreateHarnessDecisionInput, HarnessDecisionRecord, HarnessDecisionStatus,
};
use crate::lists::texts;
use crate::text::{concat2, owned};

verus! {

fn copy_text(s: &String) -> (r: String)
    ensures
        r == *s,
{
    s.clone()
}

fn copy_opt(s: &Option<String>) -> (r: Option<String>)
    ensures
        r == *s,
{
    match s {
        Some(v) => Some(v.clone()),
        None => None,
    }
}

fn copy_texts(v: &Vec<String>) -> (r: Vec<String>)
    ensures
        r@ == v@,
{
    let mut r: Vec<String> = Vec::new();
    let mut i: usize = 0;
    while i < v.len()
        invariant
            0 <= i <= v.len(),
            r@ == v@.take(i as int),
        decreases v.len() - i,
    {
        r.push(v[i].clone());
        assert(r@ =~= v@.take(i + 1));
        i += 1;
    }
    assert(v@.take(v.len() as int) =~= v@);
    r
}

fn copy_preview_surface(s: &HarnessPreviewSurface) -> (r: HarnessPreviewSurface)
    ensures
        r == *s,
{
    HarnessPreviewSurface {
        surface_key: s.surface_key.clone(),
        path: s.path.clone(),
        changed: s.changed,
        before_sha1: s.before_sha1.clone(),
        after_sha1: s.after_sha1.clone(),
        before_bytes: s.before_bytes,
        after_bytes: s.after_bytes,
        byte_delta: s.byte_delta,
        before_lines: s.before_lines,
        after_lines: s.after_lines,
        line_delta: s.line_delta,
        before_content: s.before_content.clone(),
        after_content: s.after_content.clone(),
    }
}

fn copy_preview_surfaces(v: &Vec<HarnessPreviewSurface>) -> (r: Vec<HarnessPreviewSurface>)
    ensures
        r@ == v@,
{
    let mut r: Vec<HarnessPreviewSurface> = Vec::new();
    let mut i: usize = 0;
    while i < v.len()
        invariant
            0 <= i <= v.len(),
            r@ == v@.take(i as int),
        decreases v.len() - i,
    {
        r.push(copy_preview_surface(&v[i]));
        assert(r@ =~= v@.take(i + 1));
        i += 1;
    }
    assert(v@.take(v.len() as int) =~= v@);
    r
}

/// The edits that restore what an approval replaced: for each changed
/// surface, in order, its key and its content before the change.
pub fn rollback_edits(approval: &HarnessApprovalRecord) -> (r: Vec<HarnessSurfaceEdit>)
    ensures
        r@.len() == approval.changed_surfaces@.len(),
        forall|i: int|
            0 <= i < r@.len() ==> (#[trigger] r@[i]).surface_key
                == approval.changed_surfaces@[i].surface_key && r@[i].content
                == approval.changed_surfaces@[i].before_content,
{
    let mut r: Vec<HarnessSurfaceEdit> = Vec::new();
    let mut i: usize = 0;
    while i < approval.changed_surfaces.len()
        invariant
            0 <= i <= approval.changed_surfaces.len(),
            r@.len() == i,
            forall|k: int|
                0 <= k < i ==> (#[trigger] r@[k]).surface_key
                    == approval.changed_surfaces@[k].surface_key && r@[k].content
                    == approval.changed_surfaces@[k].before_content,
        decreases approval.changed_surfaces.len() - i,
    {
        let c = &approval.changed_surfaces[i];
        r.push(
            HarnessSurfaceEdit {
                surface_key: copy_text(&c.surface_key),
                content: copy_text(&c.before_content),
            },
        );
        i += 1;
    }
    r
}

/// The decision that records the rollback of `approval`, accepted, between
/// the snapshots before and after the rollback.
pub open spec fn is_rollback_decision(
    d: CreateHarnessDecisionInput,
    approval: HarnessApprovalRecord,
    snapshot_before_id: Seq<char>,
    snapshot_after_id: Seq<char>,
) -> bool {
    &&& d.title@ == "Rollback "@ + approval.title@
    &&& d.summary@ == "Revert harness surfaces back to snapshot "@ + approval.snapshot_before_id@
    &&& d.rationale@ == "Manual rollback from approval "@ + approval.approval_id@
    &&& texts(d.expected_impact@) == seq!["restore previous harness behavior"@]
    &&& d.changed_surfaces@.len() == approval.changed_surfaces@.len()
    &&& forall|i: int|
        0 <= i < d.changed_surfaces@.len() ==> #[trigger] d.changed_surfaces@[i]
            == approval.changed_surfaces@[i].surface_key
    &&& texts(d.validation_plan@) == seq!["review traces after rollback"@]
    &&& d.mode_scope == Some(approval.mode_scope)
    &&& d.status == Some(HarnessDecisionStatus::Accepted)
    &&& d.related_trace_ids@ == approval.related_trace_ids@
    &&& d.snapshot_before_id matches Some(b) && b@ == snapshot_before_id
    &&& d.snapshot_after_id matches Some(a) && a@ == snapshot_after_id
}

/// The decision input for rolling back `approval`.
pub fn rollback_decision_input(
    approval: &HarnessApprovalRecord,
    snapshot_before_id: &str,
    snapshot_after_id: &str,
) -> (d: CreateHarnessDecisionInput)
    ensures
        is_rollback_decision(d, *approval, snapshot_before_id@, snapshot_after_id@),
{
    let mut keys: Vec<String> = Vec::new();
    let mut i: usize = 0;
    while i < approval.changed_surfaces.len()
        invariant
            0 <= i <= approval.changed_surfaces.len(),
            keys@.len() == i,
            forall|k: int|
                0 <= k < i ==> #[trigger] keys@[k] == approval.changed_surfaces@[k].surface_key,
        decreases approval.changed_surfaces.len() - i,
    {
        keys.push(copy_text(&approval.changed_surfaces[i].surface_key));
        i += 1;
    }
    let impact = vec![owned("restore previous harness behavior")];
    let plan = vec![owned("review traces after rollback")];
    assert(texts(impact@) =~= seq!["restore previous harness behavior"@]);
    assert(texts(plan@) =~= seq!["review traces after rollback"@]);
    CreateHarnessDecisionInput {
        title: concat2("Rollback ", approval.title.as_str()),
        summary: concat2(
            "Revert harness surfaces back to snapshot ",
            approval.snapshot_before_id.as_str(),
        ),
        rationale: concat2("Manual rollback from approval ", approval.approval_id.as_str()),
        expected_impact: impact,
        changed_surfaces: keys,
        validation_plan: plan,
        mode_scope: Some(copy_text(&approval.mode_scope)),
        status: Some(HarnessDecisionStatus::Accepted),
        related_trace_ids: copy_texts(&approval.related_trace_ids),
        snapshot_before_id: Some(owned(snapshot_before_id)),
        snapshot_after_id: Some(owned(snapshot_after_id)),
    }
}

/// A stored decision accepted by an applied change: its status accepted, its
/// earlier snapshot kept when it has one and set to the snapshot before the
/// change otherwise, its later snapshot set to the snapshot after it.
pub fn accept_decision(
    existing: HarnessDecisionRecord,
    snapshot_before_id: &str,
    snapshot_after_id: &str,
) -> (d: HarnessDecisionRecord)
    ensures
        d.status == HarnessDecisionStatus::Accepted,
        match existing.snapshot_before_id {
            Some(b) => d.snapshot_before_id == Some(b),
            None => d.snapshot_before_id matches Some(b) && b@ == snapshot_before_id@,
        },
        d.snapshot_after_id matches Some(a) && a@ == snapshot_after_id@,
        d.decision_id == existing.decision_id,
        d.created_at_ms == existing.created_at_ms,
        d.title == existing.title,
        d.summary == existing.summary,
        d.rationale == existing.rationale,
        d.expected_impact == existing.expected_impact,
        d.changed_surfaces == existing.changed_surfaces,
        d.validation_plan == existing.validation_plan,
        d.mode_scope == existing.mode_scope,
        d.related_trace_ids == existing.related_trace_ids,
{
    let mut d = existing;
    d.status = HarnessDecisionStatus::Accepted;
    if d.snapshot_before_id.is_none() {
        d.snapshot_before_id = Some(owned(snapshot_before_id));
    }
    d.snapshot_after_id = Some(owned(snapshot_after_id));
    d
}

/// The approval of an executed change, recorded under `decision`: its title,
/// summary, mode scope and traces, the two snapshots of the execution and the
/// surfaces of its preview, the runtime reloaded.
pub open spec fn is_approval_for(
    a: CreateHarnessApprovalInput,
    decision: HarnessDecisionRecord,
    approved_by: String,
    approval_note: Option<String>,
    execution: HarnessApplyExecution,
    status: HarnessApprovalStatus,
    reverted_from_approval_id: Option<String>,
) -> bool {
    &&& a.decision_id == Some(decision.decision_id)
    &&& a.title == decision.title
    &&& a.summary == decision.summary
    &&& a.approved_by == approved_by
    &&& a.approval_note == approval_note
    &&& a.mode_scope == Some(decision.mode_scope)
    &&& a.related_trace_ids@ == decision.related_trace_ids@
    &&& a.snapshot_before_id == execution.snapshot_before.snapshot_id
    &&& a.snapshot_after_id == execution.snapshot_after.snapshot_id
    &&& a.changed_surfaces@ == execution.preview.surfaces@
    &&& a.runtime_reloaded
    &&& a.status == status
    &&& a.reverted_from_approval_id == reverted_from_approval_id
}

/// The approval input for an executed change.
pub fn approval_input(
    decision: &HarnessDecisionRecord,
    approved_by: String,
    approval_note: Option<String>,
    execution: &HarnessApplyExecution,
    status: HarnessApprovalStatus,
    reverted_from_approval_id: Option<String>,
) -> (a: CreateHarnessApprovalInput)
    ensures
        is_approval_for(
            a,
            *decision,
            approved_by,
            approval_note,
            *execution,
            status,
            reverted_from_approval_id,
        ),
{
    CreateHarnessApprovalInput {
        decision_id: Some(copy_text(&decision.decision_id)),
        title: copy_text(&decision.title),
        summary: copy_text(&decision.summary),
        approved_by,
        approval_note,
        mode_scope: Some(copy_text(&decision.mode_scope)),
        related_trace_ids: copy_texts(&decision.related_trace_ids),
        snapshot_before_id: copy_text(&execution.snapshot_before.snapshot_id),
        snapshot_after_id: copy_text(&execution.snapshot_after.snapshot_id),
        changed_surfaces: copy_preview_surfaces(&execution.preview.surfaces),
        runtime_reloaded: true,
        status,
        reverted_from_approval_id,
    }
}

/// The decision input for applied edits that name no stored decision:
/// accepted, the earlier snapshot the one given or else the snapshot before
/// the change, the later snapshot the one after it.
pub fn applied_decision_input(
    title: String,
    summary: String,
    rationale: String,
    expected_impact: Vec<String>,
    changed_surfaces: Vec<String>,
    validation_plan: Vec<String>,
    mode_scope: Option<String>,
    related_trace_ids: Vec<String>,
    snapshot_before_id: Option<String>,
    execution: &HarnessApplyExecution,
) -> (d: CreateHarnessDecisionInput)
    ensures
        d.title == title,
        d.summary == summary,
        d.rationale == rationale,
        d.expected_impact == expected_impact,
        d.changed_surfaces == changed_surfaces,
        d.validation_plan == validation_plan,
        d.mode_scope == mode_scope,
        d.status == Some(HarnessDecisionStatus::Accepted),
        d.related_trace_ids == related_trace_ids,
        d.snapshot_before_id == match snapshot_before_id {
            Some(b) => Some(b),
            None => Some(execution.snapshot_before.snapshot_id),
        },
        d.snapshot_after_id == Some(execution.snapshot_after.snapshot_id),
{
    let before = match snapshot_before_id {
        Some(b) => Some(b),
        None => Some(copy_text(&execution.snapshot_before.snapshot_id)),
    };
    CreateHarnessDecisionInput {
        title,
        summary,
        rationale,
        expected_impact,
        changed_surfaces,
        validation_plan,
        mode_scope,
        status: Some(HarnessDecisionStatus::Accepted),
        related_trace_ids,
        snapshot_before_id: before,
        snapshot_after_id: Some(copy_text(&execution.snapshot_after.snapshot_id)),
    }
}

} // verus!
