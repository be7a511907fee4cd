use auto_claude::domain::settings::{
    shared_frontend_settings_path, SharedFrontendSettings, UserMcpPermissions,
    UserSkillPermissions,
};

fn sample() -> SharedFrontendSettings {
    SharedFrontendSettings {
        brand_title: "共享品牌".to_string(),
        brand_subtitle: "共享副标题".to_string(),
        mcp_config_path: " config/mcp.json ".to_string(),
        mcp_base_urls: "http://demo/mcp".to_string(),
        mcp_disabled_urls: vec!["http://a".to_string(), "http://a".to_string()],
        mcp_lazy_urls: vec!["http://b".to_string(), "http://a".to_string()],
        mcp_user_permissions: vec![UserMcpPermissions {
            user_id: "user-1".to_string(),
            allowed_tools: vec!["read_file".to_string()],
            denied_tools: vec!["delete_file".to_string()],
        }],
        skill_user_permissions: vec![UserSkillPermissions {
            user_id: "user-1".to_string(),
            allowed_skills: vec!["read_document".to_string()],
            denied_skills: vec!["get_oil_data".to_string()],
        }],
        agent_prompt_override: " override base ".to_string(),
        agent_prompt_append: " be concise ".to_string(),
        model_id: "demo-model".to_string(),
        temperature: "0.2".to_string(),
        max_tokens: "4096".to_string(),
        max_iterations: "12".to_string(),
        top_p: "0.9".to_string(),
        memory_maintenance_system_prompt: "sys".to_string(),
        memory_maintenance_user_prompt: "user".to_string(),
        skill_learning_system_prompt: "skill sys".to_string(),
        skill_learning_user_prompt: "skill user".to_string(),
    }
}

#[test]
fn persists_and_loads_shared_frontend_settings() {
    let loaded = sample().normalized();

    assert_eq!(loaded.brand_title, "共享品牌");
    assert_eq!(loaded.mcp_config_path, "config/mcp.json");
    assert_eq!(loaded.mcp_disabled_urls, vec!["http://a"]);
    assert_eq!(loaded.mcp_lazy_urls, vec!["http://b"]);
    assert_eq!(loaded.agent_prompt_override, "override base");
    assert_eq!(loaded.agent_prompt_append, "be concise");
    assert_eq!(loaded.mcp_user_permissions[0].allowed_tools, vec!["read_file"]);
    assert_eq!(loaded.skill_user_permissions[0].denied_skills, vec!["get_oil_data"]);
}

#[test]
fn normalizing_twice_changes_nothing() {
    let once = sample().normalized();
    assert_eq!(once.normalized(), once);
}

#[test]
fn blank_brand_falls_back_and_empty_permissions_are_dropped() {
    let mut s = SharedFrontendSettings::default();
    s.brand_title = "   ".to_string();
    s.mcp_user_permissions = vec![
        UserMcpPermissions {
            user_id: " ".to_string(),
            allowed_tools: vec!["x".to_string()],
            denied_tools: Vec::new(),
        },
        UserMcpPermissions {
            user_id: "u".to_string(),
            allowed_tools: vec![" ".to_string()],
            denied_tools: Vec::new(),
        },
    ];
    let n = s.normalized();
    assert_eq!(n.brand_title, "中科院智能体平台");
    assert!(n.mcp_user_permissions.is_empty());
    assert_eq!(n, SharedFrontendSettings::default());
}

#[test]
fn settings_file_sits_under_the_state_directory() {
    assert_eq!(
        shared_frontend_settings_path("/repo"),
        "/repo/.omx/state/frontend-settings.json"
    );
}
