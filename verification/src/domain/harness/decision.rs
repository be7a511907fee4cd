use vstd::prelude::*;

use crate::json::opt_view;

use crate::domain::clock::{unix_time_millis, unix_time_nanos};
use crate::lists::{norm_list, normalize_list, texts};
use crate::text::{
    concat2, decimal, is_empty_text, lower_seq, owned, str_eq, trim, trim_lower, trim_seq,
    u128_to_decimal,
};

verus! {

/// Where a harness decision stands.
#[derive(Debug, Clone, Copy, PartialEq, Eq, Structural)]
pub enum HarnessDecisionStatus {
    Proposed,
    Accepted,
    Rejected,
}

/// A recorded decision about changing the harness.
#[derive(Debug, Clone)]
pub struct HarnessDecisionRecord {
    pub decision_id: String,
    pub created_at_ms: u128,
    pub title: String,
    pub summary: String,
    pub rationale: String,
    pub expected_impact: Vec<String>,
    pub changed_surfaces: Vec<String>,
    pub validation_plan: Vec<String>,
    pub mode_scope: String,
    pub status: HarnessDecisionStatus,
    pub related_trace_ids: Vec<String>,
    pub snapshot_before_id: Option<String>,
    pub snapshot_after_id: Option<String>,
}

/// What a caller gives to record a decision.
#[derive(Debug, Clone)]
pub struct CreateHarnessDecisionInput {
    pub title: String,
    pub summary: String,
    pub rationale: String,
    pub expected_impact: Vec<String>,
    pub changed_surfaces: Vec<String>,
    pub validation_plan: Vec<String>,
    pub mode_scope: Option<String>,
    pub status: Option<HarnessDecisionStatus>,
    pub related_trace_ids: Vec<String>,
    pub snapshot_before_id: Option<String>,
    pub snapshot_after_id: Option<String>,
}

/// Why a harness record was refused.
#[derive(Debug, Clone, PartialEq, Eq)]
pub enum HarnessRecordError {
    /// A required text field is blank.
    Required { field: String },
    /// The mode scope is neither `memory_only` nor `all_modes`.
    InvalidModeScope,
    /// An approval names no changed surface.
    NoChangedSurface,
}

impl HarnessRecordError {
    pub open spec fn text(self) -> Seq<char> {
        match self {
            HarnessRecordError::Required { field } => field@ + " is required"@,
            HarnessRecordError::InvalidModeScope =>
                "mode_scope must be one of: memory_only, all_modes"@,
            HarnessRecordError::NoChangedSurface =>
                "at least one changed surface is required for approval"@,
        }
    }

    pub fn message(&self) -> (m: String)
        ensures
            m@ == self.text(),
    {
        match self {
            HarnessRecordError::Required { field } => concat2(field.as_str(), " is required"),
            HarnessRecordError::InvalidModeScope => owned(
                "mode_scope must be one of: memory_only, all_modes",
            ),
            HarnessRecordError::NoChangedSurface => owned(
                "at least one changed surface is required for approval",
            ),
        }
    }
}

/// The trimmed value of a required field, or an error naming the field.
pub fn required_text(field: &str, value: String) -> (r: Result<String, HarnessRecordError>)
    ensures
        trim_seq(value@).len() > 0 <==> r is Ok,
        r matches Ok(v) ==> v@ == trim_seq(value@),
        r matches Err(e) ==> e == (HarnessRecordError::Required { field: e->field }) && e->field@
            == field@,
{
    let v = trim(value.as_str());
    if is_empty_text(v.as_str()) {
        return Err(HarnessRecordError::Required { field: owned(field) });
    }
    Ok(v)
}

pub open spec fn opt_text_spec(value: Option<String>) -> Option<Seq<char>> {
    match value {
        Some(v) => if trim_seq(v@).len() > 0 {
            Some(trim_seq(v@))
        } else {
            None
        },
        None => None,
    }
}

/// The trimmed value, with a blank one taken as absent.
pub fn optional_text(value: Option<String>) -> (r: Option<String>)
    ensures
        opt_view(r) == opt_text_spec(value),
{
    match value {
        Some(v) => {
            let t = trim(v.as_str());
            if is_empty_text(t.as_str()) {
                None
            } else {
                Some(t)
            }
        },
        None => None,
    }
}

/// The mode scope as it is kept: trimmed and lower-cased, `memory_only` when
/// blank or absent.
pub open spec fn mode_scope_value(value: Option<String>) -> Seq<char> {
    match value {
        Some(v) => if lower_seq(trim_seq(v@)).len() > 0 {
            lower_seq(trim_seq(v@))
        } else {
            "memory_only"@
        },
        None => "memory_only"@,
    }
}

pub open spec fn valid_mode_scope(s: Seq<char>) -> bool {
    s == "memory_only"@ || s == "all_modes"@
}

/// The normalized mode scope; only `memory_only` and `all_modes` are accepted.
pub fn normalize_mode_scope(value: Option<String>) -> (r: Result<String, HarnessRecordError>)
    ensures
        r is Ok <==> valid_mode_scope(mode_scope_value(value)),
        r matches Ok(s) ==> s@ == mode_scope_value(value),
        r matches Err(e) ==> e == HarnessRecordError::InvalidModeScope,
{
    let v = match value {
        Some(v) => {
            let t = trim_lower(v.as_str());
            if is_empty_text(t.as_str()) {
                owned("memory_only")
            } else {
                t
            }
        },
        None => owned("memory_only"),
    };
    if str_eq(v.as_str(), "memory_only") || str_eq(v.as_str(), "all_modes") {
        Ok(v)
    } else {
        Err(HarnessRecordError::InvalidModeScope)
    }
}

/// `"hdecision-"` followed by a nanosecond timestamp.
pub open spec fn decision_id_for(nanos: nat) -> Seq<char> {
    "hdecision-"@ + decimal(nanos)
}

/// A fresh decision id built from the current time in nanoseconds.
pub fn new_decision_id() -> (id: String)
    ensures
        exists|nanos: nat| id@ == decision_id_for(nanos),
{
    let nanos = unix_time_nanos();
    let digits = u128_to_decimal(nanos);
    let id = concat2("hdecision-", digits.as_str());
    assert(id@ == decision_id_for(nanos as nat));
    id
}

/// Milliseconds since the Unix epoch.
pub fn now_ms() -> u128 {
    unix_time_millis()
}

/// Why a decision input is refused, if it is: the first blank of title,
/// summary and rationale, then an unknown mode scope.
pub open spec fn decision_failure(input: CreateHarnessDecisionInput) -> Option<Seq<char>> {
    if trim_seq(input.title@).len() == 0 {
        Some("title"@ + " is required"@)
    } else if trim_seq(input.summary@).len() == 0 {
        Some("summary"@ + " is required"@)
    } else if trim_seq(input.rationale@).len() == 0 {
        Some("rationale"@ + " is required"@)
    } else if !valid_mode_scope(mode_scope_value(input.mode_scope)) {
        Some("mode_scope must be one of: memory_only, all_modes"@)
    } else {
        None
    }
}

impl HarnessDecisionRecord {
    /// Records a decision: texts trimmed, lists trimmed and without blanks or
    /// repeats, the mode scope `memory_only` unless given, the status proposed
    /// unless given; blank required texts and unknown scopes are refused, in the
    /// order title, summary, rationale, mode scope.
    pub fn create(input: CreateHarnessDecisionInput) -> (r: Result<Self, HarnessRecordError>)
        ensures
            r is Ok <==> decision_failure(input) is None,
            r matches Err(e) ==> decision_failure(input) == Some(e.text()),
            r matches Ok(d) ==> {
                &&& exists|nanos: nat| d.decision_id@ == decision_id_for(nanos)
                &&& d.title@ == trim_seq(input.title@)
                &&& d.summary@ == trim_seq(input.summary@)
                &&& d.rationale@ == trim_seq(input.rationale@)
                &&& texts(d.expected_impact@) == norm_list(texts(input.expected_impact@))
                &&& texts(d.changed_surfaces@) == norm_list(texts(input.changed_surfaces@))
                &&& texts(d.validation_plan@) == norm_list(texts(input.validation_plan@))
                &&& d.mode_scope@ == mode_scope_value(input.mode_scope)
                &&& d.status == match input.status {
                    Some(s) => s,
                    None => HarnessDecisionStatus::Proposed,
                }
                &&& texts(d.related_trace_ids@) == norm_list(texts(input.related_trace_ids@))
                &&& opt_view(d.snapshot_before_id) == opt_text_spec(input.snapshot_before_id)
                &&& opt_view(d.snapshot_after_id) == opt_text_spec(input.snapshot_after_id)
            },
    {
        let title = required_text("title", input.title)?;
        let summary = required_text("summary", input.summary)?;
        let rationale = required_text("rationale", input.rationale)?;
        let mode_scope = normalize_mode_scope(input.mode_scope)?;
        Ok(
            HarnessDecisionRecord {
                decision_id: new_decision_id(),
                created_at_ms: now_ms(),
                title,
                summary,
                rationale,
                expected_impact: normalize_list(&input.expected_impact),
                changed_surfaces: normalize_list(&input.changed_surfaces),
                validation_plan: normalize_list(&input.validation_plan),
                mode_scope,
                status: match input.status {
                    Some(s) => s,
                    None => HarnessDecisionStatus::Proposed,
                },
                related_trace_ids: normalize_list(&input.related_trace_ids),
                snapshot_before_id: optional_text(input.snapshot_before_id),
                snapshot_after_id: optional_text(input.snapshot_after_id),
            },
        )
    }
}

} // verus!
