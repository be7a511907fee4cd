use vstd::prelude::*;

use crate::domain::clock::{unix_time_millis, unix_time_nanos};
use crate::domain::harness::PromptSource;
use crate::text::{concat2, decimal, u128_to_decimal};

verus! {

/// Which prompts a run used, and where each came from.
#[derive(Debug, Clone)]
pub struct HarnessTracePrompts {
    pub top_level_system: PromptSource,
    pub system_append: PromptSource,
    pub final_answer_recovery: PromptSource,
    pub subagent_shared: PromptSource,
    pub subagent_explore: PromptSource,
    pub subagent_general: PromptSource,
    pub memory_maintenance_system: PromptSource,
    pub memory_maintenance_user_template: PromptSource,
    pub skill_learning_system: PromptSource,
    pub skill_learning_user_template: PromptSource,
}

/// How a run ended.
#[derive(Debug, Clone)]
pub struct HarnessTraceOutcome {
    pub status: String,
    pub finish_reason: String,
    pub error: Option<String>,
    pub iterations: usize,
    pub tool_calls: usize,
    pub tool_names: Vec<String>,
    pub reply_chars: usize,
    pub output_files: usize,
    pub output_file_names: Vec<String>,
    pub used_skill_names: Vec<String>,
    pub skills_updated: usize,
    pub final_reply_recovered: bool,
    pub self_evolution_executed: bool,
}

/// `"htrace-"` followed by a nanosecond timestamp.
pub open spec fn trace_id_for(nanos: nat) -> Seq<char> {
    "htrace-"@ + decimal(nanos)
}

/// A fresh trace id built from the current time in nanoseconds.
pub fn new_trace_id() -> (id: String)
    ensures
        exists|nanos: nat| id@ == trace_id_for(nanos),
{
    let nanos = unix_time_nanos();
    let digits = u128_to_decimal(nanos);
    let id = concat2("htrace-", digits.as_str());
    assert(id@ == trace_id_for(nanos as nat));
    id
}

/// Milliseconds since the Unix epoch.
pub fn now_ms() -> u128 {
    unix_time_millis()
}

} // verus!
