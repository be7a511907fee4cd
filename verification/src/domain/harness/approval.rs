use vstd::prelude::*;

use crate::domain::clock::{unix_time_millis, unix_time_nanos};
use crate::domain::harness::apply::HarnessPreviewSurface;
use crate::domain::harness::decision::{
    mode_scope_value, normalize_mode_scope, opt_text_spec, optional_text,
    required_text, valid_mode_scope, HarnessRecordError,
};
use crate::json::opt_view;
use crate::lists::{norm_list, normalize_list, texts};
use crate::text::{concat2, decimal, trim_seq, u128_to_decimal};

verus! {

/// Where approval records are kept, relative to the repository.
pub const APPROVAL_DIR: &'static str = ".omx/approvals/harness";

/// Whether an approved change still stands.
#[derive(Debug, Clone, Copy, PartialEq, Eq, Structural)]
pub enum HarnessApprovalStatus {
    Approved,
    Reverted,
}

/// One surface as an approval records it.
#[derive(Debug, Clone)]
pub struct HarnessApprovalChange {
    pub surface_key: String,
    pub path: String,
    pub changed: bool,
    pub before_sha1: String,
    pub after_sha1: String,
    pub before_bytes: usize,
    pub after_bytes: usize,
    pub byte_delta: i64,
    pub before_lines: usize,
    pub after_lines: usize,
    pub line_delta: i64,
    pub before_content: String,
    pub after_content: String,
}

/// A recorded approval of harness edits (or of their rollback).
#[derive(Debug, Clone)]
pub struct HarnessApprovalRecord {
    pub approval_id: String,
    pub created_at_ms: u128,
    pub decision_id: Option<String>,
    pub title: String,
    pub summary: String,
    pub approved_by: String,
    pub approval_note: Option<String>,
    pub mode_scope: String,
    pub related_trace_ids: Vec<String>,
    pub snapshot_before_id: String,
    pub snapshot_after_id: String,
    pub changed_surfaces: Vec<HarnessApprovalChange>,
    pub runtime_reloaded: bool,
    pub status: HarnessApprovalStatus,
    pub reverted_from_approval_id: Option<String>,
}

/// What a caller gives to record an approval.
#[derive(Debug, Clone)]
pub struct CreateHarnessApprovalInput {
    pub decision_id: Option<String>,
    pub title: String,
    pub summary: String,
    pub approved_by: String,
    pub approval_note: Option<String>,
    pub mode_scope: Option<String>,
    pub related_trace_ids: Vec<String>,
    pub snapshot_before_id: String,
    pub snapshot_after_id: String,
    pub changed_surfaces: Vec<HarnessPreviewSurface>,
    pub runtime_reloaded: bool,
    pub status: HarnessApprovalStatus,
    pub reverted_from_approval_id: Option<String>,
}

/// The change records the previewed surface field for field.
pub open spec fn records_surface(c: HarnessApprovalChange, s: HarnessPreviewSurface) -> bool {
    &&& c.surface_key == s.surface_key
    &&& c.path == s.path
    &&& c.changed == s.changed
    &&& c.before_sha1 == s.before_sha1
    &&& c.after_sha1 == s.after_sha1
    &&& c.before_bytes == s.before_bytes
    &&& c.after_bytes == s.after_bytes
    &&& c.byte_delta == s.byte_delta
    &&& c.before_lines == s.before_lines
    &&& c.after_lines == s.after_lines
    &&& c.line_delta == s.line_delta
    &&& c.before_content == s.before_content
    &&& c.after_content == s.after_content
}

/// A previewed surface as an approval records it.
pub fn to_approval_change(surface: HarnessPreviewSurface) -> (c: HarnessApprovalChange)
    ensures
        records_surface(c, surface),
{
    HarnessApprovalChange {
        surface_key: surface.surface_key,
        path: surface.path,
        changed: surface.changed,
        before_sha1: surface.before_sha1,
        after_sha1: surface.after_sha1,
        before_bytes: surface.before_bytes,
        after_bytes: surface.after_bytes,
        byte_delta: surface.byte_delta,
        before_lines: surface.before_lines,
        after_lines: surface.after_lines,
        line_delta: surface.line_delta,
        before_content: surface.before_content,
        after_content: surface.after_content,
    }
}

/// `"happroval-"` followed by a nanosecond timestamp.
pub open spec fn approval_id_for(nanos: nat) -> Seq<char> {
    "happroval-"@ + decimal(nanos)
}

/// A fresh approval id built from the current time in nanoseconds.
pub fn new_approval_id() -> (id: String)
    ensures
        exists|nanos: nat| id@ == approval_id_for(nanos),
{
    let nanos = unix_time_nanos();
    let digits = u128_to_decimal(nanos);
    let id = concat2("happroval-", digits.as_str());
    assert(id@ == approval_id_for(nanos as nat));
    id
}

/// Why an approval input is refused, if it is: the first blank of title,
/// summary, approver and the two snapshot ids, then no changed surface, then
/// an unknown mode scope.
pub open spec fn approval_failure(input: CreateHarnessApprovalInput) -> Option<Seq<char>> {
    if trim_seq(input.title@).len() == 0 {
        Some("title"@ + " is required"@)
    } else if trim_seq(input.summary@).len() == 0 {
        Some("summary"@ + " is required"@)
    } else if trim_seq(input.approved_by@).len() == 0 {
        Some("approved_by"@ + " is required"@)
    } else if trim_seq(input.snapshot_before_id@).len() == 0 {
        Some("snapshot_before_id"@ + " is required"@)
    } else if trim_seq(input.snapshot_after_id@).len() == 0 {
        Some("snapshot_after_id"@ + " is required"@)
    } else if input.changed_surfaces@.len() == 0 {
        Some("at least one changed surface is required for approval"@)
    } else if !valid_mode_scope(mode_scope_value(input.mode_scope)) {
        Some("mode_scope must be one of: memory_only, all_modes"@)
    } else {
        None
    }
}

fn to_changes(surfaces: Vec<HarnessPreviewSurface>) -> (r: Vec<HarnessApprovalChange>)
    ensures
        r@.len() == surfaces@.len(),
        forall|i: int| 0 <= i < r@.len() ==> records_surface(#[trigger] r@[i], surfaces@[i]),
{
    let mut rest = surfaces;
    let ghost all = rest@;
    let mut out: Vec<HarnessApprovalChange> = Vec::new();
    let mut i: usize = 0;
    let n = rest.len();
    while i < n
        invariant
            n == all.len(),
            0 <= i <= n,
            rest@ == all.skip(i as int),
            out@.len() == i,
            forall|k: int| 0 <= k < i ==> records_surface(#[trigger] out@[k], all[k]),
        decreases n - i,
    {
        let s = rest.remove(0);
        assert(s == all[i as int]);
        assert(rest@ =~= all.skip(i + 1));
        out.push(to_approval_change(s));
        i += 1;
    }
    out
}

impl HarnessApprovalRecord {
    /// Records an approval: texts trimmed, the trace ids trimmed and without
    /// blanks or repeats, optional texts trimmed with blanks taken as absent,
    /// the mode scope `memory_only` unless given; refused as
    /// `approval_failure` states.
    pub fn create(input: CreateHarnessApprovalInput) -> (r: Result<Self, HarnessRecordError>)
        ensures
            r is Ok <==> approval_failure(input) is None,
            r matches Err(e) ==> approval_failure(input) == Some(e.text()),
            r matches Ok(a) ==> {
                &&& exists|nanos: nat| a.approval_id@ == approval_id_for(nanos)
                &&& opt_view(a.decision_id) == opt_text_spec(input.decision_id)
                &&& a.title@ == trim_seq(input.title@)
                &&& a.summary@ == trim_seq(input.summary@)
                &&& a.approved_by@ == trim_seq(input.approved_by@)
                &&& opt_view(a.approval_note) == opt_text_spec(input.approval_note)
                &&& a.mode_scope@ == mode_scope_value(input.mode_scope)
                &&& texts(a.related_trace_ids@) == norm_list(texts(input.related_trace_ids@))
                &&& a.snapshot_before_id@ == trim_seq(input.snapshot_before_id@)
                &&& a.snapshot_after_id@ == trim_seq(input.snapshot_after_id@)
                &&& a.changed_surfaces@.len() == input.changed_surfaces@.len()
                &&& forall|i: int|
                    0 <= i < a.changed_surfaces@.len() ==> records_surface(
                        #[trigger] a.changed_surfaces@[i],
                        input.changed_surfaces@[i],
                    )
                &&& a.runtime_reloaded == input.runtime_reloaded
                &&& a.status == input.status
                &&& opt_view(a.reverted_from_approval_id) == opt_text_spec(
                    input.reverted_from_approval_id,
                )
            },
    {
        let title = required_text("title", input.title)?;
        let summary = required_text("summary", input.summary)?;
        let approved_by = required_text("approved_by", input.approved_by)?;
        let snapshot_before_id = required_text("snapshot_before_id", input.snapshot_before_id)?;
        let snapshot_after_id = required_text("snapshot_after_id", input.snapshot_after_id)?;
        let changed_surfaces = to_changes(input.changed_surfaces);
        if changed_surfaces.len() == 0 {
            return Err(HarnessRecordError::NoChangedSurface);
        }
        let approval_id = new_approval_id();
        let created_at_ms = unix_time_millis();
        let decision_id = optional_text(input.decision_id);
        let approval_note = optional_text(input.approval_note);
        let mode_scope = normalize_mode_scope(input.mode_scope)?;
        Ok(
            HarnessApprovalRecord {
                approval_id,
                created_at_ms,
                decision_id,
                title,
                summary,
                approved_by,
                approval_note,
                mode_scope,
                related_trace_ids: normalize_list(&input.related_trace_ids),
                snapshot_before_id,
                snapshot_after_id,
                changed_surfaces,
                runtime_reloaded: input.runtime_reloaded,
                status: input.status,
                reverted_from_approval_id: optional_text(input.reverted_from_approval_id),
            },
        )
    }
}

} // verus!
