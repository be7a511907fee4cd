use std::collections::{BTreeMap, HashSet};

use auto_claude::domain::chat::builtin_tools::{
    builtin_tool_names, builtin_tool_schemas, normalize_builtin_tool_list,
};
use auto_claude::domain::chat::compaction::public_compaction_tool_schemas;
use auto_claude::domain::chat::orchestrator::{lazy_mcp_control_tool_schemas, static_public_tool_schemas};
use auto_claude::domain::chat::tool_schema::{
    tool_entries, tool_parameter, tool_schema, tool_schema_json, tool_schemas_json, ToolSchema,
};
use auto_claude::domain::harness::{HarnessAssets, HarnessFiles};
use auto_claude::domain::memory::service::memory_update_tools;
use auto_claude::domain::session::service::SessionService;
use auto_claude::domain::session::teammate::teammate_tool_schemas;
use auto_claude::domain::skills::service::private_skill_update_tools;
use auto_claude::domain::tasks::service::public_task_tool_schemas;

fn names(tools: &[ToolSchema]) -> Vec<String> {
    tools.iter().map(|tool| tool.name.clone()).collect()
}

#[test]
fn renders_tool_entry_as_function_json() {
    let tool = tool_schema(
        "broadcast",
        "Say \"hi\"",
        vec![
            tool_parameter("content", r#"{"type":"string"}"#, true),
            tool_parameter("limit", r#"{"type":"integer"}"#, false),
        ],
    );
    assert_eq!(
        tool_schema_json(&tool),
        r#"{"type":"function","function":{"name":"broadcast","description":"Say \"hi\"","parameters":{"type":"object","properties":{"content":{"type":"string"},"limit":{"type":"integer"}},"required":["content"]}}}"#
    );
}

#[test]
fn tool_without_required_parameters_has_no_required_list() {
    let tool = tool_schema("idle", "Signal no more work.", Vec::new());
    assert_eq!(
        tool_schema_json(&tool),
        r#"{"type":"function","function":{"name":"idle","description":"Signal no more work.","parameters":{"type":"object","properties":{}}}}"#
    );
}

#[test]
fn every_rendered_schema_is_valid_json() {
    let mut all = SessionService::session_tool_schemas();
    all.extend(public_task_tool_schemas());
    all.extend(public_compaction_tool_schemas());
    all.extend(memory_update_tools());
    all.extend(private_skill_update_tools());
    all.extend(teammate_tool_schemas());
    all.extend(lazy_mcp_control_tool_schemas());
    let texts = tool_schemas_json(&all);
    assert_eq!(texts.len(), all.len());
    for (text, tool) in texts.iter().zip(all.iter()) {
        let value: serde_json::Value = serde_json::from_str(text).unwrap();
        assert_eq!(value["type"], "function");
        assert_eq!(value["function"]["name"], tool.name.as_str());
        assert_eq!(value["function"]["description"], tool.description.as_str());
        assert_eq!(value["function"]["parameters"]["type"], "object");
    }
}

#[test]
fn todo_schema_keeps_nested_item_requirements() {
    let tools = SessionService::session_tool_schemas();
    let value: serde_json::Value = serde_json::from_str(&tool_schema_json(&tools[0])).unwrap();
    let items = &value["function"]["parameters"]["properties"]["items"];
    assert_eq!(items["type"], "array");
    assert_eq!(items["items"]["required"][2], "activeForm");
    assert_eq!(value["function"]["parameters"]["required"][0], "items");
}

#[test]
fn session_tools_are_listed_in_order() {
    assert_eq!(
        names(&SessionService::session_tool_schemas()),
        vec![
            "TodoWrite",
            "background_run",
            "check_background",
            "spawn_teammate",
            "list_teammates",
            "send_message",
            "read_inbox",
            "broadcast",
            "claim_task",
            "shutdown_request",
            "plan_approval",
        ]
    );
}

#[test]
fn builtin_tools_place_session_tools_before_load_skill() {
    let file_tools = vec![tool_schema("read_file", "Read a file.", Vec::new())];
    let worktree_tools = vec![tool_schema("worktree_list", "List worktrees.", Vec::new())];
    let with_session = builtin_tool_schemas(file_tools.clone(), worktree_tools.clone(), true);
    let without_session = builtin_tool_schemas(file_tools, worktree_tools, false);
    let with_names = names(&with_session);
    assert_eq!(with_names[0], "read_file");
    assert_eq!(
        &with_names[1..4],
        &["compress_context", "context_transcript_get", "compress"]
    );
    assert_eq!(with_names[9], "worktree_list");
    assert_eq!(with_names[10], "task");
    assert_eq!(with_names[11], "TodoWrite");
    assert_eq!(with_names.last().unwrap(), "load_skill");
    assert_eq!(with_session.len(), without_session.len() + 11);
    assert!(!names(&without_session).contains(&"TodoWrite".to_string()));
}

#[test]
fn builtin_tool_names_are_sorted_and_unique() {
    let tools = builtin_tool_schemas(Vec::new(), Vec::new(), true);
    let listed = builtin_tool_names(&tool_entries(&tools));
    let mut expected: Vec<String> = names(&tools);
    expected.sort();
    expected.dedup();
    assert_eq!(listed, expected);
    assert!(listed.contains(&"send_message".to_string()));
}

#[test]
fn applies_tool_description_overrides_from_json_file() {
    let parsed: BTreeMap<String, String> = serde_json::from_str(
        r#"{
  "read_file": "Custom read description",
  "task": "Custom task description"
}"#,
    )
    .unwrap();
    let harness = HarnessAssets::load(HarnessFiles {
        tool_descriptions: Some(parsed.into_iter().collect()),
        ..HarnessFiles::default()
    })
    .unwrap();
    let mut tools = vec![
        tool_schema("read_file", "orig", Vec::new()),
        tool_schema("task", "orig", Vec::new()),
    ];
    harness.apply_tool_descriptions(&mut tools);

    assert_eq!(tools[0].description, "Custom read description");
    assert_eq!(tools[1].description, "Custom task description");
}

#[test]
fn tools_without_override_keep_their_description() {
    let harness = HarnessAssets::load(HarnessFiles {
        tool_descriptions: Some(vec![("task".to_string(), "Custom".to_string())]),
        ..HarnessFiles::default()
    })
    .unwrap();
    let mut tools = lazy_mcp_control_tool_schemas();
    let before = tools.clone();
    harness.apply_tool_descriptions(&mut tools);
    assert_eq!(tools[0].description, before[0].description);
    assert_eq!(tools[1].name, "activate_lazy_mcp_tools");
}

fn public_file_tools() -> Vec<ToolSchema> {
    ["read_file", "write_file", "edit_file"]
        .into_iter()
        .map(|name| tool_schema(name, "file tool", Vec::new()))
        .collect()
}

fn public_worktree_tools() -> Vec<ToolSchema> {
    [
        "worktree_create",
        "worktree_list",
        "worktree_status",
        "worktree_run",
        "worktree_keep",
        "worktree_remove",
        "worktree_events",
    ]
    .into_iter()
    .map(|name| tool_schema(name, "worktree tool", Vec::new()))
    .collect()
}

#[test]
fn static_public_tool_surface_matches_reference_set_except_dynamic_mcp() {
    let actual = static_public_tool_schemas(public_file_tools(), public_worktree_tools(), true)
        .into_iter()
        .map(|tool| tool.name)
        .collect::<HashSet<_>>();

    let expected = [
        "TodoWrite",
        "background_run",
        "broadcast",
        "check_background",
        "claim_task",
        "compress",
        "edit_file",
        "list_teammates",
        "load_skill",
        "plan_approval",
        "read_file",
        "read_inbox",
        "send_message",
        "shutdown_request",
        "spawn_teammate",
        "task",
        "task_bind_worktree",
        "task_create",
        "task_get",
        "task_list",
        "task_update",
        "worktree_create",
        "worktree_events",
        "worktree_keep",
        "worktree_list",
        "worktree_remove",
        "worktree_run",
        "worktree_status",
        "write_file",
    ]
    .into_iter()
    .map(str::to_string)
    .collect::<HashSet<_>>();

    assert_eq!(actual, expected);
}

#[test]
fn static_surface_without_session_keeps_the_rest() {
    let names = names(&static_public_tool_schemas(Vec::new(), Vec::new(), false));
    assert_eq!(
        names,
        vec!["compress", "task_create", "task_list", "task_get", "task_update", "task_bind_worktree", "task", "load_skill"]
    );
}

#[test]
fn blank_prompt_file_is_refused_by_its_path() {
    let refused = HarnessAssets::load(HarnessFiles {
        subagent_explore: Some("  \n".to_string()),
        final_answer_recovery: Some("\t".to_string()),
        ..HarnessFiles::default()
    });
    match refused {
        Err(error) => assert_eq!(error.relative_path, "harness/subagents/explore.md"),
        Ok(_) => panic!("a blank prompt file must be refused"),
    }
    assert!(HarnessAssets::load(HarnessFiles::default()).is_ok());
}

#[test]
fn builtin_tool_lists_keep_known_names_once() {
    let schemas = tool_entries(&builtin_tool_schemas(public_file_tools(), Vec::new(), true));
    let values = vec![
        " read_file ".to_string(),
        "unknown".to_string(),
        "".to_string(),
        "TodoWrite".to_string(),
        "read_file".to_string(),
    ];
    assert_eq!(
        normalize_builtin_tool_list(&values, &schemas),
        vec!["read_file".to_string(), "TodoWrite".to_string()]
    );
}

#[test]
fn normalized_builtin_tool_lists_stay_as_they_are() {
    let schemas = tool_entries(&builtin_tool_schemas(public_file_tools(), Vec::new(), true));
    let values = vec![
        "TodoWrite".to_string(),
        " read_file".to_string(),
        "TodoWrite ".to_string(),
        "nope".to_string(),
    ];
    let once = normalize_builtin_tool_list(&values, &schemas);
    assert_eq!(once, vec!["TodoWrite".to_string(), "read_file".to_string()]);
    assert_eq!(normalize_builtin_tool_list(&once, &schemas), once);
}
