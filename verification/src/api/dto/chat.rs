use vstd::prelude::*;

use crate::domain::chat::models::{HistoryEntry, OutputFile, SteeringSubmission};
use crate::domain::skills::models::SkillDocument;

verus! {

/// The answer to a chat run.
#[derive(Debug)]
pub struct AgentResponse {
    pub reply: String,
    pub history: Vec<HistoryEntry>,
    pub output_files: Vec<OutputFile>,
}

/// The answer to a run in memory mode, with the skills it updated.
#[derive(Debug)]
pub struct MemoryAgentResponse {
    pub reply: String,
    pub history: Vec<HistoryEntry>,
    pub skills_updated: Vec<SkillDocument>,
    pub output_files: Vec<OutputFile>,
}

/// The answer to a steering message.
#[derive(Debug)]
pub struct SteeringResponse {
    pub status: String,
    pub session_id: String,
}

impl SteeringResponse {
    /// The response that reports a submitted steering message.
    pub fn from(value: SteeringSubmission) -> (r: Self)
        ensures
            r.status == value.status,
            r.session_id == value.session_id,
    {
        SteeringResponse { status: value.status, session_id: value.session_id }
    }
}

} // verus!
