use auto_claude::config::model::{MemoryPromptConfig, SkillPromptConfig};
use auto_claude::domain::harness::snapshot::build_harness_snapshot;
use auto_claude::domain::harness::{HarnessAssets, HarnessFiles, MiddlewareMessagesOverride};
use auto_claude::json::{push_json_string, push_json_string_array};

#[test]
fn quotes_and_escapes_strings() {
    let mut out = String::from("x=");
    push_json_string(&mut out, "a\"b\\c\nd\te\u{1}");
    assert_eq!(out, "x=\"a\\\"b\\\\c\\nd\\te\\u0001\"");
}

#[test]
fn writes_compact_string_lists() {
    let mut out = String::new();
    push_json_string_array(&mut out, &vec!["t-1".to_string(), "q\"".to_string()]);
    assert_eq!(out, "[\"t-1\",\"q\\\"\"]");
    let mut empty = String::new();
    push_json_string_array(&mut empty, &Vec::new());
    assert_eq!(empty, "[]");
}

#[test]
fn snapshot_prints_string_objects_indented_with_sorted_keys() {
    let files = HarnessFiles {
        tool_descriptions: Some(vec![
            ("write_file".to_string(), "Write".to_string()),
            ("read_file".to_string(), "Read \"it\"".to_string()),
        ]),
        middleware_messages: Some(MiddlewareMessagesOverride {
            background_results_ack: Some("bg".to_string()),
            inbox_ack: Some("in".to_string()),
            steering_ack: Some("st".to_string()),
            todo_reminder_user: Some("tu".to_string()),
            todo_reminder_ack: Some("ta".to_string()),
        }),
        ..HarnessFiles::default()
    };
    let harness = HarnessAssets::load(files).unwrap();
    let snapshot = build_harness_snapshot(
        &harness,
        &MemoryPromptConfig::default(),
        &SkillPromptConfig::default(),
        false,
        false,
        false,
        false,
    );
    let tools = &snapshot.surfaces[9];
    assert_eq!(tools.key, "tools.descriptions");
    assert_eq!(
        tools.content,
        "{\n  \"read_file\": \"Read \\\"it\\\"\",\n  \"write_file\": \"Write\"\n}"
    );
    let messages = &snapshot.surfaces[10];
    assert_eq!(messages.key, "middleware.messages");
    assert_eq!(
        messages.content,
        "{\n  \"background_results_ack\": \"bg\",\n  \"inbox_ack\": \"in\",\n  \"steering_ack\": \"st\",\n  \"todo_reminder_ack\": \"ta\",\n  \"todo_reminder_user\": \"tu\"\n}"
    );
}
