use vstd::prelude::*;

use crate::domain::clock::{unix_time_millis, unix_time_nanos};
use crate::json::{json_pretty, pretty_json_text};
use crate::text::{
    char_count, concat2, decimal, is_empty_text, owned, push_str, take_chars, trim, trim_end,
    trim_end_seq, trim_seq, u128_to_decimal,
};

verus! {

#[derive(Debug, Clone, Copy, PartialEq, Eq)]
pub enum HitlDecisionKind {
    ToolCall,
}

#[derive(Debug, Clone, Copy, PartialEq, Eq)]
pub enum HitlRiskLevel {
    Low,
    Medium,
    High,
}

#[derive(Debug, Clone, Copy, PartialEq, Eq)]
pub enum HitlDecisionStatus {
    Pending,
    Approved,
    Rejected,
    Modified,
    Expired,
}

impl HitlRiskLevel {
    pub open spec fn label(self) -> Seq<char> {
        match self {
            HitlRiskLevel::Low => "low"@,
            HitlRiskLevel::Medium => "medium"@,
            HitlRiskLevel::High => "high"@,
        }
    }

    /// The lower-case label of the level.
    pub fn as_str(&self) -> (s: &'static str)
        ensures
            s@ == self.label(),
    {
        match self {
            HitlRiskLevel::Low => "low",
            HitlRiskLevel::Medium => "medium",
            HitlRiskLevel::High => "high",
        }
    }
}

/// `"hitl-"` followed by the given nanosecond timestamp.
pub open spec fn hitl_approval_id_for(nanos: nat) -> Seq<char> {
    "hitl-"@ + decimal(nanos)
}

/// A fresh approval id built from the current time in nanoseconds.
pub fn new_hitl_approval_id() -> (id: String)
    ensures
        exists|nanos: nat| id@ == hitl_approval_id_for(nanos),
{
    let nanos = unix_time_nanos();
    let digits = u128_to_decimal(nanos);
    let id = concat2("hitl-", digits.as_str());
    assert(id@ == hitl_approval_id_for(nanos as nat));
    id
}

/// Milliseconds since the Unix epoch.
pub fn now_ms() -> u128 {
    unix_time_millis()
}

/// Characters of the arguments shown in a request's preview.
pub const PREVIEW_CHARS: usize = 2_000;

/// The preview of a tool call's arguments: the JSON pretty-printed (the text
/// itself when it is not JSON), cut to `limit` characters and marked when cut.
pub open spec fn preview_text(arguments: Seq<char>, limit: usize) -> Seq<char> {
    let raw = match json_pretty(arguments) {
        Some(p) => p,
        None => arguments,
    };
    if raw.len() <= limit {
        raw
    } else {
        trim_end_seq(raw.take(limit as int)) + "...[truncated]"@
    }
}

pub fn preview_json(arguments: &str, limit: usize) -> (s: String)
    ensures
        s@ == preview_text(arguments@, limit),
{
    let raw = match pretty_json_text(arguments) {
        Some(p) => p,
        None => owned(arguments),
    };
    if char_count(raw.as_str()) <= limit {
        return raw;
    }
    let mut s = trim_end(take_chars(raw.as_str(), limit).as_str());
    push_str(&mut s, "...[truncated]");
    s
}

/// A request for a person to confirm a tool call. The arguments are the
/// call's JSON text.
#[derive(Debug)]
pub struct HitlDecisionRequest {
    pub approval_id: String,
    pub session_id: String,
    pub generation: u64,
    pub kind: HitlDecisionKind,
    pub title: String,
    pub summary: String,
    pub risk_level: HitlRiskLevel,
    pub tool_name: Option<String>,
    pub display_name: Option<String>,
    pub arguments: String,
    pub preview: Option<String>,
    pub created_at_ms: u128,
    pub expires_at_ms: Option<u128>,
    pub status: HitlDecisionStatus,
}

fn clone_text(o: &Option<String>) -> (r: Option<String>)
    ensures
        r == *o,
{
    match o {
        Some(s) => Some(s.clone()),
        None => None,
    }
}

fn clone_time(o: &Option<u128>) -> (r: Option<u128>)
    ensures
        r == *o,
{
    match o {
        Some(t) => Some(*t),
        None => None,
    }
}

impl Clone for HitlDecisionRequest {
    fn clone(&self) -> (r: Self)
        ensures
            r == *self,
    {
        HitlDecisionRequest {
            approval_id: self.approval_id.clone(),
            session_id: self.session_id.clone(),
            generation: self.generation,
            kind: self.kind,
            title: self.title.clone(),
            summary: self.summary.clone(),
            risk_level: self.risk_level,
            tool_name: clone_text(&self.tool_name),
            display_name: clone_text(&self.display_name),
            arguments: self.arguments.clone(),
            preview: clone_text(&self.preview),
            created_at_ms: self.created_at_ms,
            expires_at_ms: clone_time(&self.expires_at_ms),
            status: self.status,
        }
    }
}

/// Why a confirmation request could not be made.
#[derive(Debug, Clone, Copy, PartialEq, Eq)]
pub enum HitlRequestError {
    ToolNameEmpty,
}

impl HitlRequestError {
    pub fn message(&self) -> (m: String)
        ensures
            m@ == "tool_name cannot be empty"@,
    {
        owned("tool_name cannot be empty")
    }
}

pub open spec fn request_title(action: Seq<char>) -> Seq<char> {
    "确认执行："@ + action
}

pub open spec fn request_summary(action: Seq<char>) -> Seq<char> {
    "模型请求执行“"@ + action + "”，需要人工确认后继续。"@
}

/// When a request made at `created` expires: never with no timeout, else
/// `timeout_seconds` later (held at the largest time).
pub open spec fn expiry(created: u128, timeout_seconds: u64) -> Option<u128> {
    if timeout_seconds == 0 {
        None
    } else if created + timeout_seconds * 1000 > u128::MAX {
        Some(u128::MAX)
    } else {
        Some((created + timeout_seconds * 1000) as u128)
    }
}

impl HitlDecisionRequest {
    /// A pending request to confirm a call of `tool_name` (trimmed; a blank
    /// name is refused). The action is named by the display name when it is
    /// not blank, else by the tool name.
    pub fn new_tool_call(
        session_id: &str,
        generation: u64,
        tool_name: &str,
        arguments: String,
        risk_level: HitlRiskLevel,
        timeout_seconds: u64,
        display_name: Option<String>,
    ) -> (r: Result<Self, HitlRequestError>)
        ensures
            trim_seq(tool_name@).len() == 0 ==> r == Err::<Self, HitlRequestError>(
                HitlRequestError::ToolNameEmpty,
            ),
            trim_seq(tool_name@).len() > 0 ==> (r matches Ok(q) && {
                let shown = match display_name {
                    Some(d) => if trim_seq(d@).len() > 0 {
                        Some(trim_seq(d@))
                    } else {
                        None
                    },
                    None => None,
                };
                let action = match shown {
                    Some(d) => d,
                    None => trim_seq(tool_name@),
                };
                &&& exists|nanos: nat| q.approval_id@ == hitl_approval_id_for(nanos)
                &&& q.session_id@ == session_id@
                &&& q.generation == generation
                &&& q.kind == HitlDecisionKind::ToolCall
                &&& q.title@ == request_title(action)
                &&& q.summary@ == request_summary(action)
                &&& q.risk_level == risk_level
                &&& q.tool_name matches Some(t) && t@ == trim_seq(tool_name@)
                &&& match q.display_name {
                    Some(d) => shown == Some(d@),
                    None => shown is None,
                }
                &&& q.arguments@ == arguments@
                &&& q.preview matches Some(p) && p@ == preview_text(arguments@, PREVIEW_CHARS)
                &&& q.expires_at_ms == expiry(q.created_at_ms, timeout_seconds)
                &&& q.status == HitlDecisionStatus::Pending
            }),
    {
        let tool_name = trim(tool_name);
        if is_empty_text(tool_name.as_str()) {
            return Err(HitlRequestError::ToolNameEmpty);
        }
        let now = now_ms();
        let display_name = match display_name {
            Some(d) => {
                let t = trim(d.as_str());
                if is_empty_text(t.as_str()) {
                    None
                } else {
                    Some(t)
                }
            },
            None => None,
        };
        let action = match &display_name {
            Some(d) => owned(d.as_str()),
            None => owned(tool_name.as_str()),
        };
        let title = concat2("确认执行：", action.as_str());
        let mut summary = concat2("模型请求执行“", action.as_str());
        push_str(&mut summary, "”，需要人工确认后继续。");
        let preview = preview_json(arguments.as_str(), PREVIEW_CHARS);
        let expires_at_ms = if timeout_seconds == 0 {
            None
        } else {
            Some(now.saturating_add((timeout_seconds as u128) * 1000))
        };
        Ok(HitlDecisionRequest {
            approval_id: new_hitl_approval_id(),
            session_id: owned(session_id),
            generation,
            kind: HitlDecisionKind::ToolCall,
            title,
            summary,
            risk_level,
            tool_name: Some(tool_name),
            display_name,
            arguments,
            preview: Some(preview),
            created_at_ms: now,
            expires_at_ms,
            status: HitlDecisionStatus::Pending,
        })
    }
}

/// How a person (or the timeout) answered a confirmation request. Modified
/// arguments are JSON text.
#[derive(Debug, Clone)]
pub struct HitlDecisionResolution {
    pub approval_id: String,
    pub status: HitlDecisionStatus,
    pub resolved_at_ms: u128,
    pub resolved_by: String,
    pub note: Option<String>,
    pub modified_arguments: Option<String>,
}

impl HitlDecisionResolution {
    pub fn approved(approval_id: String, resolved_by: String, note: Option<String>) -> (r: Self)
        ensures
            r.approval_id == approval_id,
            r.status == HitlDecisionStatus::Approved,
            r.resolved_by == resolved_by,
            r.note == note,
            r.modified_arguments is None,
    {
        HitlDecisionResolution {
            approval_id,
            status: HitlDecisionStatus::Approved,
            resolved_at_ms: now_ms(),
            resolved_by,
            note,
            modified_arguments: None,
        }
    }

    pub fn rejected(approval_id: String, resolved_by: String, note: Option<String>) -> (r: Self)
        ensures
            r.approval_id == approval_id,
            r.status == HitlDecisionStatus::Rejected,
            r.resolved_by == resolved_by,
            r.note == note,
            r.modified_arguments is None,
    {
        HitlDecisionResolution {
            approval_id,
            status: HitlDecisionStatus::Rejected,
            resolved_at_ms: now_ms(),
            resolved_by,
            note,
            modified_arguments: None,
        }
    }

    pub fn modified(
        approval_id: String,
        resolved_by: String,
        note: Option<String>,
        arguments: String,
    ) -> (r: Self)
        ensures
            r.approval_id == approval_id,
            r.status == HitlDecisionStatus::Modified,
            r.resolved_by == resolved_by,
            r.note == note,
            r.modified_arguments == Some(arguments),
    {
        HitlDecisionResolution {
            approval_id,
            status: HitlDecisionStatus::Modified,
            resolved_at_ms: now_ms(),
            resolved_by,
            note,
            modified_arguments: Some(arguments),
        }
    }

    /// The answer given when nobody answered in time.
    pub fn expired(approval_id: String) -> (r: Self)
        ensures
            r.approval_id == approval_id,
            r.status == HitlDecisionStatus::Expired,
            r.resolved_by@ == "system-timeout"@,
            r.note matches Some(n) && n@ == "HITL approval timed out"@,
            r.modified_arguments is None,
    {
        HitlDecisionResolution {
            approval_id,
            status: HitlDecisionStatus::Expired,
            resolved_at_ms: now_ms(),
            resolved_by: owned("system-timeout"),
            note: Some(owned("HITL approval timed out")),
            modified_arguments: None,
        }
    }
}

} // verus!
