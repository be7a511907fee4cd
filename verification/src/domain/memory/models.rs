use vstd::prelude::*;

verus! {

/// Where a user's workspace lives: its root, the user's directory, the two
/// memory files and the private skills directory.
#[derive(Debug, Clone)]
pub struct UserWorkspacePaths {
    pub root_dir: String,
    pub user_dir: String,
    pub user_md: String,
    pub memory_md: String,
    pub skills_dir: String,
}

/// The memory files of a user as read at the start of a session.
#[derive(Debug, Clone)]
pub struct UserMemorySnapshot {
    pub user_id: String,
    pub user_md: String,
    pub memory_md: String,
}

/// What a reset of a user's memory cleared.
#[derive(Debug, Clone)]
pub struct UserMemoryResetResult {
    pub user_id: String,
    pub paths: UserWorkspacePaths,
    pub user_md_cleared: bool,
    pub memory_md_cleared: bool,
    pub private_skills_cleared: bool,
    pub private_skill_count: usize,
}

} // verus!
