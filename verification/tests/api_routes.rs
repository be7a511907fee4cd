use auto_claude::api::dto::skills::SkillsQuery;
use auto_claude::api::errors::ApiError;
use auto_claude::api::routes::chat::{
    chat_form, filesafe_fragment, non_empty, parse_history, parse_mcp_base_urls, parse_optional_number,
    steering_body_kind, steering_content, steering_without_run, SteeringBody,
};
use auto_claude::api::routes::skills::{
    build_skill_evolution_status, evolution_meta, merged_body, parse_skill_permissions,
    parse_string_list, skill_body_hash,
};
use auto_claude::domain::skills::models::{SkillDocument, SkillScope};

fn skill(body: &str, meta: Vec<(&str, &str)>, scope: SkillScope) -> SkillDocument {
    SkillDocument {
        name: "demo".to_string(),
        description: String::new(),
        tags: String::new(),
        trigger: String::new(),
        folder: String::new(),
        path: String::new(),
        body: body.to_string(),
        meta: meta
            .into_iter()
            .map(|(k, v)| (k.to_string(), v.to_string()))
            .collect(),
        scope,
    }
}

#[test]
fn parses_string_lists_of_queries() {
    assert_eq!(parse_string_list(None, "allowed_skills").unwrap(), Vec::<String>::new());
    assert_eq!(parse_string_list(Some("  "), "allowed_skills").unwrap(), Vec::<String>::new());
    assert_eq!(
        parse_string_list(Some("[\" a \", \"\", \"b\", \"a\"]"), "allowed_skills").unwrap(),
        vec!["a".to_string(), "b".to_string()]
    );
    assert_eq!(
        parse_string_list(Some("[1]"), "denied_skills").unwrap_err(),
        ApiError::BadRequest("denied_skills 必须是字符串数组 JSON".to_string())
    );
    let query = SkillsQuery {
        scope: None,
        user_id: None,
        allowed_skills: Some("[\"x\"]".to_string()),
        denied_skills: Some("nope".to_string()),
    };
    assert_eq!(
        parse_skill_permissions(&query).unwrap_err(),
        ApiError::BadRequest("denied_skills 必须是字符串数组 JSON".to_string())
    );
    let query = SkillsQuery { denied_skills: None, ..query };
    let permissions = parse_skill_permissions(&query).unwrap();
    assert_eq!(permissions.allowed_skills, vec!["x".to_string()]);
    assert!(permissions.denied_skills.is_empty());
}

#[test]
fn reports_skill_evolution_status() {
    let shared = skill("shared body", vec![], SkillScope::Shared);
    let hash = skill_body_hash("  shared body\n");
    assert_eq!(hash, "368c19233d93640e12ab98f4dabb52465f5c8017");
    let private = skill(
        "mine",
        vec![("coassist_baseline_hash", hash.as_str())],
        SkillScope::Private,
    );
    let status = build_skill_evolution_status(
        "demo",
        " u1 ",
        Some(shared.clone()),
        Some(private.clone()),
        Some(private.clone()),
    )
    .unwrap();
    assert!(status.has_private);
    assert!(!status.baseline_changed);
    assert_eq!(status.recommendation, "private_aligned");
    assert_eq!(status.user_id, "u1");
    assert_eq!(status.effective_scope, SkillScope::Private);

    let changed = skill("new shared", vec![], SkillScope::Shared);
    let status =
        build_skill_evolution_status("demo", "u1", Some(changed), Some(private), None).unwrap();
    assert!(status.baseline_changed);
    assert_eq!(status.recommendation, "needs_merge_or_reset");
    assert_eq!(status.effective_scope, SkillScope::Shared);

    let only_shared =
        build_skill_evolution_status("demo", "u1", Some(shared), None, None).unwrap();
    assert_eq!(only_shared.recommendation, "baseline_only");
    assert_eq!(
        build_skill_evolution_status("demo", " ", None, None, None).unwrap_err(),
        ApiError::BadRequest("user_id 不能为空".to_string())
    );
    assert_eq!(
        build_skill_evolution_status("demo", "u1", None, None, None).unwrap_err(),
        ApiError::BadRequest("Skill 不存在: demo".to_string())
    );
}

#[test]
fn builds_evolution_metadata_and_merged_bodies() {
    let shared = skill("body", vec![("zeta", "1"), ("alpha", "2")], SkillScope::Shared);
    let meta = evolution_meta(&shared, "merge", Some("  note "), 42);
    let keys: Vec<&str> = meta.iter().map(|(k, _)| k.as_str()).collect();
    assert_eq!(
        keys,
        vec![
            "alpha",
            "coassist_action_at",
            "coassist_action_note",
            "coassist_baseline_hash",
            "coassist_last_action",
            "zeta"
        ]
    );
    assert_eq!(meta[1].1, "42");
    assert_eq!(meta[2].1, "note");
    assert_eq!(meta[3].1, skill_body_hash("body"));
    assert_eq!(meta[4].1, "merge");
    let without_note = evolution_meta(&shared, "reset", Some("   "), 1);
    assert_eq!(without_note.len(), 5);
    assert_eq!(merged_body(Some("  new  "), "old"), "new");
    assert_eq!(merged_body(Some("  "), "old"), "old");
    assert_eq!(merged_body(None, "old"), "old");
}

#[test]
fn parses_chat_form_fields() {
    assert_eq!(non_empty("  x ".to_string()), Some("x".to_string()));
    assert_eq!(non_empty("   ".to_string()), None);
    assert_eq!(parse_optional_number(" 12 ", "max_tokens", u32::MAX as u64).unwrap(), Some(12));
    assert_eq!(parse_optional_number("", "max_tokens", u32::MAX as u64).unwrap(), None);
    assert_eq!(
        parse_optional_number("1.5", "max_iterations", u64::MAX).unwrap_err(),
        ApiError::BadRequest("max_iterations 格式不正确".to_string())
    );
    assert_eq!(
        parse_optional_number("4294967296", "max_tokens", u32::MAX as u64).unwrap_err(),
        ApiError::BadRequest("max_tokens 格式不正确".to_string())
    );
    assert_eq!(
        parse_mcp_base_urls(Some("[\"http://a\", \" http://a \", \"\"]")).unwrap(),
        vec!["http://a".to_string()]
    );
    assert_eq!(
        parse_mcp_base_urls(Some("{}")).unwrap_err(),
        ApiError::BadRequest("mcp_base_urls 必须是字符串数组 JSON".to_string())
    );
    let history = parse_history(
        "[{\"role\":\" user \",\"content\":\"hi\"},{\"role\":\"assistant\"},{\"content\":\"x\"},3]",
    )
    .unwrap();
    assert_eq!(history.len(), 1);
    assert_eq!(history[0].role, "user");
    assert_eq!(history[0].content, "hi");
    assert_eq!(
        parse_history("{").unwrap_err(),
        ApiError::BadRequest("history 必须是合法 JSON".to_string())
    );
    assert_eq!(
        parse_history("{}").unwrap_err(),
        ApiError::BadRequest("history 必须是数组".to_string())
    );
    assert_eq!(filesafe_fragment("__Report v2.docx__"), "Report_v2_docx");
    assert_eq!(filesafe_fragment("中文"), "");
}

#[test]
fn decides_how_to_read_steering_requests() {
    assert_eq!(
        steering_body_kind(false, None).unwrap_err(),
        ApiError::BadRequest("仅支持 POST".to_string())
    );
    assert_eq!(
        steering_body_kind(true, Some("Application/JSON; charset=utf-8")).unwrap(),
        SteeringBody::Json
    );
    assert_eq!(steering_body_kind(true, None).unwrap(), SteeringBody::Form);
    assert_eq!(
        steering_body_kind(true, Some("application/x-www-form-urlencoded")).unwrap(),
        SteeringBody::Form
    );
    assert_eq!(
        steering_body_kind(true, Some("Text/Plain")).unwrap_err(),
        ApiError::BadRequest("不支持的 steering Content-Type: text/plain".to_string())
    );
    assert_eq!(steering_content("  stop  ").unwrap(), "stop");
    assert_eq!(
        steering_content(" ").unwrap_err(),
        ApiError::BadRequest("content 不能为空".to_string())
    );
    assert_eq!(
        steering_without_run(),
        ApiError::BadRequest("当前没有正在运行的 agent，无法注入 steering".to_string())
    );
}

fn form(pairs: &[(&str, &str)]) -> Vec<(String, String)> {
    pairs.iter().map(|(k, v)| (k.to_string(), v.to_string())).collect()
}

#[test]
fn chat_form_reads_text_fields() {
    let parsed = chat_form(&form(&[
        ("message", "  hi  "),
        ("history", r#"[{"role":"user","content":"before"}]"#),
        ("system_override", " sys "),
        ("agent_id", "agent-7"),
        ("max_tokens", " 300 "),
        ("max_iterations", ""),
        ("mcp_base_urls", r#"["http://a", " http://a "]"#),
        ("session_id", "s1"),
        ("session_id", "  "),
    ]))
    .unwrap();
    assert_eq!(parsed.message, "hi");
    assert_eq!(parsed.history.len(), 1);
    assert_eq!(parsed.system.as_deref(), Some("sys"));
    assert_eq!(parsed.system_override.as_deref(), Some("sys"));
    assert_eq!(parsed.user_id.as_deref(), Some("agent-7"));
    assert_eq!(parsed.max_tokens, Some(300));
    assert_eq!(parsed.max_iterations, None);
    assert_eq!(parsed.mcp_base_urls, vec!["http://a".to_string()]);
    assert_eq!(parsed.session_id, None);
}

#[test]
fn chat_form_refusals_come_in_order() {
    let refusal = |pairs: &[(&str, &str)]| match chat_form(&form(pairs)) {
        Err(ApiError::BadRequest(m)) => m,
        _ => panic!("the form must be refused"),
    };
    assert_eq!(refusal(&[("message", " "), ("max_tokens", "x")]), "max_tokens 格式不正确");
    assert_eq!(refusal(&[("message", " ")]), "message 不能为空");
    assert_eq!(refusal(&[("message", "m"), ("history", "{")]), "history 必须是合法 JSON");
    assert_eq!(refusal(&[("message", "m"), ("history", "{}")]), "history 必须是数组");
    assert_eq!(refusal(&[("message", "m"), ("max_tokens", "0")]), "max_tokens 必须大于 0");
    assert_eq!(refusal(&[("message", "m"), ("max_iterations", "0")]), "max_iterations 必须大于 0");
    assert_eq!(
        refusal(&[("message", "m"), ("mcp_lazy_urls", "[1]")]),
        "mcp_base_urls 必须是字符串数组 JSON"
    );
}
