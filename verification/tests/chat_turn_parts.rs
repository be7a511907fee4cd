use auto_claude::domain::chat::message::ChatMessage;
use auto_claude::domain::chat::models::HistoryEntry;
use auto_claude::domain::chat::orchestrator::{build_subagent_initial_messages, resolve_max_iterations};
use auto_claude::domain::chat::turn::{
    build_trace_prompts, hitl_status_label, initial_messages, inject_session_messages,
    recovered_reply, recovery_messages, resolve_prompt_source, session_id_or_dash,
    should_use_mcp_file_reader, system_with_skills, unique_skill_names,
};
use auto_claude::domain::harness::{HarnessAssets, HarnessFiles, PromptSource, PromptSourceKind};
use auto_claude::domain::hitl::models::HitlDecisionStatus;
use auto_claude::domain::session::background::BackgroundNotification;

#[test]
fn subagent_starts_with_isolated_context_only() {
    let harness = HarnessAssets::load(HarnessFiles::default()).unwrap();
    let messages =
        build_subagent_initial_messages(harness.render_subagent_system("Explore"), "inspect README");
    assert_eq!(messages.len(), 2);
    assert_eq!(messages[0].role, "system");
    assert!(messages[0].content.as_deref().unwrap_or_default().contains("isolated subagent"));
    assert!(messages[0].content.as_deref().unwrap_or_default().contains("Stay read-only"));
    assert_eq!(messages[1].role, "user");
    assert_eq!(messages[1].content.as_deref(), Some("inspect README"));
}

#[test]
fn recovery_prompt_forces_final_answer_without_tools() {
    let harness = HarnessAssets::load(HarnessFiles::default()).unwrap();
    let prompt = harness.render_final_answer_recovery("max_iterations");
    assert!(prompt.contains("without any user-visible answer"));
    assert!(prompt.contains("finish_reason: max_iterations"));
    assert!(prompt.contains("Do not call tools"));
}

#[test]
fn preview_system_prompt_uses_configured_agent_template() {
    let harness = HarnessAssets::load(HarnessFiles {
        system_base: Some("custom-system {repo_root} -> {outputs_dir}".to_string()),
        ..HarnessFiles::default()
    })
    .unwrap();
    let stateless_prompt = system_with_skills(harness.render_system_base("/repo"), "(no skills available)");
    assert!(stateless_prompt.contains("custom-system"));
    assert!(stateless_prompt.contains("/repo"));
    assert!(stateless_prompt.contains("/repo/outputs"));
}

#[test]
fn request_override_max_iterations_takes_precedence() {
    assert_eq!(resolve_max_iterations(Some(6), 12), 6);
    assert_eq!(resolve_max_iterations(None, 12), 12);
}

#[test]
fn lists_skills_in_the_system_prompt() {
    assert_eq!(system_with_skills("base".to_string(), "(no skills available)"), "base");
    assert_eq!(
        system_with_skills("base".to_string(), "  - a: b"),
        "base\n\nSkills available (call load_skill to use):\n  - a: b"
    );
}

#[test]
fn builds_first_messages_and_session_feed() {
    let history = vec![HistoryEntry { role: "assistant".to_string(), content: "earlier".to_string() }];
    let messages = initial_messages("sys", &history, "now");
    assert_eq!(messages.len(), 3);
    assert_eq!(messages[0].role, "system");
    assert_eq!(messages[1].role, "assistant");
    assert_eq!(messages[1].content.as_deref(), Some("earlier"));
    assert_eq!(messages[2].content.as_deref(), Some("now"));

    let mut feed = Vec::new();
    let notes = vec![
        BackgroundNotification { task_id: "1".to_string(), status: "completed".to_string(), result: "ok".to_string() },
        BackgroundNotification { task_id: "2".to_string(), status: "error".to_string(), result: "bad".to_string() },
    ];
    inject_session_messages(&mut feed, &notes, None, Some("<steering>x</steering>"), "bg ack", "inbox ack", "steer ack");
    assert_eq!(feed.len(), 4);
    assert_eq!(
        feed[0].content.as_deref(),
        Some("<background-results>\n[bg:1] completed: ok\n[bg:2] error: bad\n</background-results>")
    );
    assert_eq!(feed[1].content.as_deref(), Some("bg ack"));
    assert_eq!(feed[2].content.as_deref(), Some("<steering>x</steering>"));
    assert_eq!(feed[3].content.as_deref(), Some("steer ack"));
    let mut nothing = Vec::new();
    inject_session_messages(&mut nothing, &vec![], None, None, "a", "b", "c");
    assert!(nothing.is_empty());
}

#[test]
fn recovers_missing_final_replies() {
    let messages = vec![ChatMessage::user("q")];
    let asked = recovery_messages(&messages, "answer now");
    assert_eq!(asked.len(), 2);
    assert_eq!(asked[1].content.as_deref(), Some("answer now"));
    assert_eq!(recovered_reply(Some("  done  ".to_string())), Some("done".to_string()));
    assert_eq!(recovered_reply(Some("   ".to_string())), None);
    assert_eq!(recovered_reply(None), None);
}

#[test]
fn small_labels_and_skill_names() {
    assert_eq!(hitl_status_label(HitlDecisionStatus::Modified), "modified");
    assert_eq!(hitl_status_label(HitlDecisionStatus::Expired), "expired");
    assert_eq!(session_id_or_dash(Some("s1")), "s1");
    assert_eq!(session_id_or_dash(None), "-");
    let names = vec!["b".to_string(), "a".to_string(), "b".to_string(), "B".to_string()];
    assert_eq!(unique_skill_names(&names), vec!["B".to_string(), "a".to_string(), "b".to_string()]);
}

#[test]
fn office_files_are_read_through_mcp() {
    assert!(should_use_mcp_file_reader(Some("outputs/report.DOCX")));
    assert!(should_use_mcp_file_reader(Some("data.csv")));
    assert!(should_use_mcp_file_reader(Some("a/b.tar.xls")));
    assert!(!should_use_mcp_file_reader(Some("notes.md")));
    assert!(!should_use_mcp_file_reader(Some(".csv")));
    assert!(!should_use_mcp_file_reader(Some("csv")));
    assert!(!should_use_mcp_file_reader(None));
}

#[test]
fn traces_where_prompts_came_from() {
    let harness = HarnessAssets::load(HarnessFiles::default()).unwrap();
    let file = PromptSource::file(".omx/prompts/x.md");
    assert_eq!(resolve_prompt_source(true, file.clone()).kind, PromptSourceKind::Request);
    assert_eq!(resolve_prompt_source(false, file.clone()), file);
    let prompts = build_trace_prompts(
        &harness,
        true,
        false,
        PromptSource::builtin(),
        file.clone(),
        PromptSource::request(),
        PromptSource::builtin(),
    );
    assert_eq!(prompts.top_level_system.kind, PromptSourceKind::Request);
    assert_eq!(prompts.system_append.kind, PromptSourceKind::Unset);
    assert_eq!(prompts.memory_maintenance_user_template, file);
    assert_eq!(prompts.subagent_shared, harness.subagent_shared_source().clone());
    let prompts = build_trace_prompts(
        &harness, false, true, PromptSource::builtin(), PromptSource::builtin(),
        PromptSource::builtin(), PromptSource::builtin(),
    );
    assert_eq!(prompts.top_level_system, harness.system_base_source().clone());
    assert_eq!(prompts.system_append.kind, PromptSourceKind::Request);
}
