use vstd::prelude::*;

use crate::domain::skills::models::{SkillDocument, SkillScope};

verus! {

/// Which skills a listing asks for.
#[derive(Debug, Clone)]
pub struct SkillsQuery {
    pub scope: Option<String>,
    pub user_id: Option<String>,
    pub allowed_skills: Option<String>,
    pub denied_skills: Option<String>,
}

/// A skill to create or replace.
#[derive(Debug, Clone)]
pub struct SkillUpsertRequest {
    pub name: String,
    pub description: String,
    pub tags: String,
    pub trigger: String,
    pub body: String,
    pub folder: Option<String>,
    pub scope: Option<String>,
    pub user_id: Option<String>,
}

/// A listing of skills.
#[derive(Debug)]
pub struct SkillListResponse {
    pub skills: Vec<SkillDocument>,
    pub count: usize,
    pub names: Vec<String>,
    pub descriptions: String,
    pub scope: SkillScope,
    pub user_id: Option<String>,
}

/// The answer to saving a skill.
#[derive(Debug)]
pub struct SkillMutationResponse {
    pub skill: SkillDocument,
    pub skills: Vec<SkillDocument>,
    pub count: usize,
    pub scope: SkillScope,
    pub user_id: Option<String>,
}

/// The answer to deleting a skill.
#[derive(Debug)]
pub struct SkillDeleteResponse {
    pub deleted: SkillDocument,
    pub skills: Vec<SkillDocument>,
    pub count: usize,
    pub scope: SkillScope,
    pub user_id: Option<String>,
}

/// Whose private copy of a skill a request is about.
#[derive(Debug, Clone)]
pub struct SkillEvolutionQuery {
    pub user_id: String,
}

/// A private skill body to apply.
#[derive(Debug, Clone)]
pub struct SkillEvolutionApplyRequest {
    pub user_id: String,
    pub body: Option<String>,
    pub note: Option<String>,
}

/// How a user's private copy of a skill stands against the shared one.
#[derive(Debug)]
pub struct SkillEvolutionStatusResponse {
    pub name: String,
    pub user_id: String,
    pub has_private: bool,
    pub baseline_changed: bool,
    pub effective_scope: SkillScope,
    pub shared_hash: Option<String>,
    pub private_hash: Option<String>,
    pub effective_hash: Option<String>,
    pub baseline_hash_when_forked: Option<String>,
    pub recommendation: String,
    pub shared: Option<SkillDocument>,
    pub private: Option<SkillDocument>,
    pub effective: Option<SkillDocument>,
}

/// The answer to changing a private skill.
#[derive(Debug)]
pub struct SkillEvolutionMutationResponse {
    pub action: String,
    pub status: SkillEvolutionStatusResponse,
}

} // verus!
