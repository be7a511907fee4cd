use auto_claude::domain::chat::orchestrator::hitl_run_arguments;
use auto_claude::domain::hitl::models::HitlDecisionStatus;
use auto_claude::domain::chat::models::SkillPermissions;
use auto_claude::domain::chat::orchestrator::{
    builtin_tool_call, loaded_skill_reply, public_tool_route, BuiltinToolCall, PublicToolRoute,
};
use auto_claude::domain::skills::models::{SkillDocument, SkillScope};

fn skill(name: &str, body: &str) -> SkillDocument {
    SkillDocument {
        name: name.to_string(),
        description: String::new(),
        tags: String::new(),
        trigger: String::new(),
        folder: name.to_string(),
        path: format!("skills/{name}/SKILL.md"),
        body: body.to_string(),
        meta: Vec::new(),
        scope: SkillScope::Private,
    }
}

#[test]
fn mcp_tools_go_to_the_mcp_client() {
    assert_eq!(public_tool_route("mcp_docs__search", "{}"), PublicToolRoute::Mcp);
}

#[test]
fn office_file_reads_route_to_mcp() {
    assert_eq!(
        public_tool_route("read_file", r#"{"path":"outputs/report.DOCX"}"#),
        PublicToolRoute::McpFileRead
    );
    assert_eq!(
        public_tool_route("read_file", r#"{"path":"notes.txt"}"#),
        PublicToolRoute::Services
    );
    assert_eq!(public_tool_route("read_file", "not json"), PublicToolRoute::Services);
}

#[test]
fn legacy_compress_is_answered_at_once() {
    assert_eq!(
        public_tool_route("compress", "{}"),
        PublicToolRoute::Reply("Compressing...".to_string())
    );
    assert_eq!(public_tool_route("task_list", "{}"), PublicToolRoute::Services);
}

#[test]
fn subagent_defaults_to_explore() {
    assert_eq!(
        builtin_tool_call("task", r#"{"prompt":"  inspect README  "}"#),
        BuiltinToolCall::Subagent {
            prompt: "inspect README".to_string(),
            agent_type: "Explore".to_string()
        }
    );
    assert_eq!(
        builtin_tool_call("task", r#"{"prompt":"fix it","agent_type":"general-purpose"}"#),
        BuiltinToolCall::Subagent {
            prompt: "fix it".to_string(),
            agent_type: "general-purpose".to_string()
        }
    );
}

#[test]
fn builtin_calls_need_their_arguments() {
    assert_eq!(
        builtin_tool_call("task", r#"{"prompt":"   "}"#),
        BuiltinToolCall::Reply("Error: task requires a non-empty prompt".to_string())
    );
    assert_eq!(
        builtin_tool_call("load_skill", "{}"),
        BuiltinToolCall::Reply("Error: load_skill requires a non-empty name".to_string())
    );
    assert_eq!(
        builtin_tool_call("load_skill", r#"{"name":" pdf "}"#),
        BuiltinToolCall::LoadSkill { name: "pdf".to_string() }
    );
    assert_eq!(builtin_tool_call("search_lazy_mcp_tools", "{}"), BuiltinToolCall::SearchLazyMcp);
    assert_eq!(
        builtin_tool_call("activate_lazy_mcp_tools", "{}"),
        BuiltinToolCall::ActivateLazyMcp
    );
    assert_eq!(
        builtin_tool_call("frobnicate", "{}"),
        BuiltinToolCall::Reply("Unknown tool: frobnicate".to_string())
    );
}

#[test]
fn loaded_skill_is_wrapped_or_refused() {
    let open = SkillPermissions { allowed_skills: Vec::new(), denied_skills: Vec::new() };
    assert_eq!(
        loaded_skill_reply(&skill("pdf", "Use pdftotext."), &open),
        "<skill name=\"pdf\" scope=\"private\">\nUse pdftotext.\n</skill>"
    );
    let denied = SkillPermissions {
        allowed_skills: Vec::new(),
        denied_skills: vec!["pdf".to_string()],
    };
    assert_eq!(
        loaded_skill_reply(&skill("pdf", "Use pdftotext."), &denied),
        "Error: Skill not allowed for current user: pdf"
    );
}

#[test]
fn modified_decisions_replace_the_arguments() {
    assert_eq!(
        hitl_run_arguments(
            r#"{"path":"a.md"}"#.to_string(),
            HitlDecisionStatus::Modified,
            Some(r#"{"path":"b.md"}"#.to_string())
        ),
        r#"{"path":"b.md"}"#
    );
    assert_eq!(
        hitl_run_arguments(r#"{"path":"a.md"}"#.to_string(), HitlDecisionStatus::Modified, None),
        r#"{"path":"a.md"}"#
    );
    assert_eq!(
        hitl_run_arguments(
            r#"{"path":"a.md"}"#.to_string(),
            HitlDecisionStatus::Approved,
            Some("{}".to_string())
        ),
        r#"{"path":"a.md"}"#
    );
}
