use auto_claude::domain::chat::tool_schema::{tool_entries, tool_schema, ToolSchema};
use auto_claude::domain::chat::builtin_tools::{
    builtin_tool_names, builtin_tool_previews, builtin_tool_schemas, is_builtin_tool,
};
use auto_claude::domain::chat::message::ChatMessage;
use auto_claude::domain::chat::tool_context::{
    apply_turn_replacement, build_persisted_message, build_result_filename, generate_preview,
    keeps_result_inline, sanitize_filename, saved_result, turn_budget_candidates,
    turn_tool_chars, unsaved_result, ToolContextBudget,
};

#[test]
fn preview_truncates_at_newline_when_possible() {
    let preview = generate_preview("alpha\nbeta\ngamma", 11);
    assert_eq!(preview, "alpha\nbeta\n");
}

#[test]
fn preview_keeps_short_content_and_early_breaks() {
    assert_eq!(generate_preview("short", 10), "short");
    assert_eq!(generate_preview("a\nbcdefghij", 6), "a\nbcde");
}

#[test]
fn result_filename_is_workspace_safe() {
    let filename = build_result_filename("mcp weird/tool", "call ../evil");
    assert!(!filename.contains('/'));
    assert!(!filename.contains(".."));
    assert!(filename.ends_with(".txt"));
    assert!(filename.contains("-mcp-weirdtool-call-evil-"));
}

#[test]
fn sanitizes_names_for_files() {
    assert_eq!(sanitize_filename("a b_c-d!"), "a-b_c-d");
    assert_eq!(sanitize_filename("///"), "tool");
    assert_eq!(sanitize_filename(&"x".repeat(100)).len(), 80);
}

#[test]
fn persisted_message_names_file_and_preview() {
    let message = build_persisted_message("head  \n", 120, "/repo/.tool-results/a.txt");
    assert_eq!(
        message,
        "<persisted-output>\nThis tool result was too large (120 characters).\nFull output saved to: /repo/.tool-results/a.txt\nUse the read_file tool with a targeted path/limit if you need specific sections of this output.\n\nPreview (first 7 chars):\nhead\n...\n</persisted-output>"
    );
    let budget = ToolContextBudget {
        result_size_chars: 50,
        turn_budget_chars: 1_000,
        preview_size_chars: 20,
    };
    let saved = saved_result(&"x".repeat(120), budget, "/tmp/r.txt");
    assert!(saved.model_content.contains("<persisted-output>"));
    assert!(saved.model_content.contains("Full output saved to:"));
    assert!(!saved.model_content.contains(&"x".repeat(80)));
    assert_eq!(saved.persisted_path.as_deref(), Some("/tmp/r.txt"));
    let unsaved = unsaved_result("abc", 500);
    assert_eq!(
        unsaved.model_content,
        "abc\n\n[Truncated: tool response was 500 characters. Full output could not be saved to workspace storage.]"
    );
}

#[test]
fn keeps_read_file_inline_to_avoid_persist_loop() {
    let budget = ToolContextBudget {
        result_size_chars: 50,
        turn_budget_chars: 1_000,
        preview_size_chars: 20,
    };
    let content = "x".repeat(120);
    assert!(keeps_result_inline("read_file", &content, budget));
    assert!(!keeps_result_inline("mcp_big_tool", &content, budget));
    assert!(keeps_result_inline("mcp_big_tool", "small", budget));
    assert_eq!(ToolContextBudget::default().turn_budget_chars, 200_000);
}

#[test]
fn plans_turn_budget_by_largest_inline_result() {
    let mut messages = vec![
        ChatMessage::assistant(None, Vec::new()),
        ChatMessage::tool("small", "small"),
        ChatMessage::tool("large", &"z".repeat(2_000)),
        ChatMessage::tool("saved", "<persisted-output>\nold\n</persisted-output>"),
    ];
    let total = turn_tool_chars(&messages, 1);
    assert_eq!(total, 2_047);
    let candidates = turn_budget_candidates(&messages, 1);
    assert_eq!(candidates, vec![(2, 2_000), (1, 5)]);

    let total = apply_turn_replacement(&mut messages, 2, 2_000, "short ref".to_string(), total);
    assert_eq!(total, 56);
    assert_eq!(messages[2].content.as_deref(), Some("short ref"));
    assert_eq!(messages[1].content.as_deref(), Some("small"));

    let unchanged = apply_turn_replacement(&mut messages, 1, 5, "much longer text".to_string(), total);
    assert_eq!(unchanged, total);
    assert_eq!(messages[1].content.as_deref(), Some("small"));
}

fn schemas() -> Vec<(String, String)> {
    vec![
        ("read_file".to_string(), " Read a file. ".to_string()),
        ("compress_context".to_string(), "Compress older conversation context.".to_string()),
        ("context_transcript_get".to_string(), "Retrieve a transcript.".to_string()),
        ("compress".to_string(), "Legacy alias for compress_context.".to_string()),
        (" read_file ".to_string(), "A second read_file schema.".to_string()),
        ("   ".to_string(), "nameless".to_string()),
    ]
}

fn file_tools() -> Vec<ToolSchema> {
    vec![
        tool_schema("read_file", "Read file contents.", Vec::new()),
        tool_schema("write_file", "Write content to file.", Vec::new()),
        tool_schema("edit_file", "Replace exact text in file.", Vec::new()),
    ]
}

#[test]
fn registry_discovers_builtin_tools_from_schemas() {
    let schemas = tool_entries(&builtin_tool_schemas(file_tools(), Vec::new(), true));
    let names = builtin_tool_names(&schemas);
    assert!(names.iter().any(|name| name == "read_file"));
    assert!(names.iter().any(|name| name == "compress_context"));
    assert!(names.iter().any(|name| name == "context_transcript_get"));
    assert!(is_builtin_tool("compress_context", &schemas));
}

#[test]
fn registry_is_sorted_and_keeps_first_description() {
    let previews = builtin_tool_previews(&schemas());
    let names: Vec<&str> = previews.iter().map(|p| p.name.as_str()).collect();
    assert_eq!(
        names,
        vec!["compress", "compress_context", "context_transcript_get", "read_file"]
    );
    assert_eq!(previews[3].description, "Read a file.");
    assert_eq!(previews[3].label, "read_file");
    assert!(!is_builtin_tool("   ", &schemas()));
    assert!(is_builtin_tool(" read_file ", &schemas()));
    assert!(!is_builtin_tool("write_file", &schemas()));
}
