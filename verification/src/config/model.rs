use vstd::prelude::*;

use crate::text::owned;

verus! {

pub const DEFAULT_MEMORY_MAINTENANCE_SYSTEM: &'static str = "You maintain USER.md and MEMORY.md by using tools to inspect and directly update files. Never emit the full replacement file bodies in plain text.";

pub const DEFAULT_MEMORY_MAINTENANCE_USER_TEMPLATE: &'static str = "You are a maintenance agent for two local markdown memory files of a coding assistant.\n\
Inspect the files with tools, decide whether they need updates, and directly modify them with the write tools.\n\n\
USER.md scope:\n\
- stable user preferences that would follow the user across projects\n\
- communication style\n\
- expectations\n\
- work habits\n\n\
MEMORY.md scope:\n\
- environment facts\n\
- tool quirks\n\
- project conventions\n\
- implementation decisions\n\
- learned experience\n\n\
Decision guide:\n\
- Put coding workflow rules, architecture choices, operational procedures, backend/frontend integration rules, file layout rules, and tool-usage constraints in MEMORY.md.\n\
- Put personal preferences about tone, collaboration style, and recurring user habits in USER.md.\n\
- If something could fit both files, prefer MEMORY.md unless it is clearly a portable personal preference across unrelated projects.\n\
- It is acceptable to update both files in one run when the latest turn contains both user-level and project-level durable information.\n\n\
Rules:\n\
- Keep only durable, reusable information likely to help future sessions.\n\
- Do not store one-off task details unless they imply a reusable convention.\n\
- Prefer short bullets or very short sections.\n\
- Only call a write tool when that file should actually change.\n\
- Do not return replacement file contents in normal text; use the write tools instead.\n\
- Hard limit for USER.md: {user_limit} characters.\n\
- Hard limit for MEMORY.md: {memory_limit} characters.\n\
- USER.md aggressive compacting: {user_restructure}.\n\
- MEMORY.md aggressive compacting: {memory_restructure}.\n\
- USER.md path: {user_md_path}\n\
- MEMORY.md path: {memory_md_path}\n\n\
Read both files first unless you already have enough context from prior tool results in this run.\n\n\
Current USER.md size: {current_user_len} chars.\n\
Current MEMORY.md size: {current_memory_len} chars.\n\n\
<latest_turn>\nUser:\n{user_message}\n\nAssistant:\n{assistant_reply}\n</latest_turn>\n\n\
When you are done, respond with a brief summary such as 'updated USER.md', 'updated MEMORY.md', 'updated both', or 'no changes'.";

pub const DEFAULT_SKILL_LEARNING_SYSTEM: &'static str = "You improve private skills for future runs by using tools to inspect and directly update the file. Keep changes concise and durable, and never emit the full replacement body in plain text.";

pub const DEFAULT_SKILL_LEARNING_USER_TEMPLATE: &'static str = "You are maintaining a user's private SKILL.md after a real assistant run.\n\
Inspect the current skill body with tools, decide whether it should change, and directly update the file with the write tool.\n\n\
Rules:\n\
- Preserve the main purpose of the skill.\n\
- Keep only durable, reusable guidance.\n\
- Do not include one-off outputs, timestamps, or transient details.\n\
- Prefer concise operational instructions.\n\
- If the latest turn adds no durable lesson, leave the file unchanged.\n\
- Do not return replacement markdown in normal text; use the write tool instead.\n\
Skill source for this turn: {source_scope}\n\n\
Private skill path: {skill_path}\n\
Private skill name: {skill_name}\n\
Current body size: {skill_body_len} chars\n\n\
<latest_turn>\n\
User:\n{user_message}\n\n\
Assistant:\n{assistant_reply}\n\
</latest_turn>\n\n\
Read the current skill body first unless you already have it from earlier tool results in this run.\n\
When you are done, respond briefly with 'updated skill' or 'no changes'.";

/// Where the HTTP server listens and how it answers cross-origin requests.
#[derive(Debug, Clone)]
pub struct ServerConfig {
    pub host: String,
    pub port: u16,
    pub reload: bool,
    pub cors: CorsConfig,
}

impl Default for ServerConfig {
    fn default() -> (r: Self)
        ensures
            r.host@ == "0.0.0.0"@,
            r.port == 8080,
            r.reload,
            cors_is_open(r.cors),
    {
        ServerConfig { host: owned("0.0.0.0"), port: 8080, reload: true, cors: CorsConfig::default() }
    }
}

/// The cross-origin policy.
#[derive(Debug, Clone)]
pub struct CorsConfig {
    pub allow_origins: Vec<String>,
    pub allow_credentials: bool,
    pub allow_methods: Vec<String>,
    pub allow_headers: Vec<String>,
}

/// Every origin, method and header allowed, without credentials.
pub open spec fn cors_is_open(c: CorsConfig) -> bool {
    &&& c.allow_origins@.len() == 1 && c.allow_origins@[0]@ == "*"@
    &&& !c.allow_credentials
    &&& c.allow_methods@.len() == 1 && c.allow_methods@[0]@ == "*"@
    &&& c.allow_headers@.len() == 1 && c.allow_headers@[0]@ == "*"@
}

impl Default for CorsConfig {
    fn default() -> (r: Self)
        ensures
            cors_is_open(r),
    {
        CorsConfig {
            allow_origins: vec![owned("*")],
            allow_credentials: false,
            allow_methods: vec![owned("*")],
            allow_headers: vec![owned("*")],
        }
    }
}

/// The MCP server that the agent's tools may come from.
#[derive(Debug, Clone)]
pub struct McpConfig {
    pub base_url: String,
    pub timeout: u64,
    pub connect_timeout: u64,
}

impl Default for McpConfig {
    fn default() -> (r: Self)
        ensures
            r.base_url@ == "http://localhost:8444/mcp"@,
            r.timeout == 60,
            r.connect_timeout == 10,
    {
        McpConfig { base_url: owned("http://localhost:8444/mcp"), timeout: 60, connect_timeout: 10 }
    }
}

/// Where logs go.
#[derive(Debug, Clone)]
pub struct LoggingConfig {
    pub dir: String,
}

impl Default for LoggingConfig {
    fn default() -> (r: Self)
        ensures
            r.dir@ == "logs"@,
    {
        LoggingConfig { dir: owned("logs") }
    }
}

/// The prompts of the memory maintenance agent.
#[derive(Debug, Clone)]
pub struct MemoryPromptConfig {
    pub maintenance_system: String,
    pub maintenance_user_template: String,
}

impl Default for MemoryPromptConfig {
    fn default() -> (r: Self)
        ensures
            r.maintenance_system@ == DEFAULT_MEMORY_MAINTENANCE_SYSTEM@,
            r.maintenance_user_template@ == DEFAULT_MEMORY_MAINTENANCE_USER_TEMPLATE@,
    {
        MemoryPromptConfig {
            maintenance_system: owned(DEFAULT_MEMORY_MAINTENANCE_SYSTEM),
            maintenance_user_template: owned(DEFAULT_MEMORY_MAINTENANCE_USER_TEMPLATE),
        }
    }
}

/// Skill learning and its prompts.
#[derive(Debug, Clone)]
pub struct SkillsConfig {
    pub learning: SkillLearningConfig,
    pub prompts: SkillPromptConfig,
}

impl Default for SkillsConfig {
    fn default() -> (r: Self)
        ensures
            r.learning.enabled,
            r.learning.update_max_tokens == 2200,
            r.prompts.learning_system@ == DEFAULT_SKILL_LEARNING_SYSTEM@,
            r.prompts.learning_user_template@ == DEFAULT_SKILL_LEARNING_USER_TEMPLATE@,
    {
        SkillsConfig { learning: SkillLearningConfig::default(), prompts: SkillPromptConfig::default() }
    }
}

/// Whether private skills learn from runs, and the token budget of an update.
#[derive(Debug, Clone)]
pub struct SkillLearningConfig {
    pub enabled: bool,
    pub update_max_tokens: u32,
}

impl Default for SkillLearningConfig {
    fn default() -> (r: Self)
        ensures
            r.enabled,
            r.update_max_tokens == 2200,
    {
        SkillLearningConfig { enabled: true, update_max_tokens: 2200 }
    }
}

/// The prompts of the skill learning agent.
#[derive(Debug, Clone)]
pub struct SkillPromptConfig {
    pub learning_system: String,
    pub learning_user_template: String,
}

impl Default for SkillPromptConfig {
    fn default() -> (r: Self)
        ensures
            r.learning_system@ == DEFAULT_SKILL_LEARNING_SYSTEM@,
            r.learning_user_template@ == DEFAULT_SKILL_LEARNING_USER_TEMPLATE@,
    {
        SkillPromptConfig {
            learning_system: owned(DEFAULT_SKILL_LEARNING_SYSTEM),
            learning_user_template: owned(DEFAULT_SKILL_LEARNING_USER_TEMPLATE),
        }
    }
}

} // verus!
