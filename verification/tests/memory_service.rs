use auto_claude::domain::memory::models::UserMemorySnapshot;
use auto_claude::domain::memory::service::{
    build_user_memory_system, clip_text, dispatch_memory_tool, maintenance_user,
    memory_write_reply, needs_restructure, normalize_text, prepare_memory_write,
    read_memory_file, render_memory_maintenance_prompt, MemoryReadState, MemoryToolStep,
    MEMORY_MD_LIMIT, USER_MD_LIMIT,
};

fn snapshot(user_md: &str, memory_md: &str) -> UserMemorySnapshot {
    UserMemorySnapshot {
        user_id: "demo-user".to_string(),
        user_md: user_md.to_string(),
        memory_md: memory_md.to_string(),
    }
}

#[test]
fn memory_system_prompt_adds_non_empty_blocks() {
    assert_eq!(build_user_memory_system("base", None), "base");
    assert_eq!(build_user_memory_system("base", Some(&snapshot("", ""))), "base");
    let both = build_user_memory_system("base", Some(&snapshot("likes tea", "repo uses rust")));
    assert_eq!(
        both,
        "base\n\n<user_profile>\nLoaded from USER.md at session start. Treat as stable user guidance until the next session.\nlikes tea\n</user_profile>\n\n<workspace_memory>\nLoaded from MEMORY.md at session start. Treat as reusable project context until the next session.\nrepo uses rust\n</workspace_memory>"
    );
    let only_memory = build_user_memory_system("base", Some(&snapshot("", "m")));
    assert!(only_memory.starts_with("base\n\n<workspace_memory>"));
    assert!(!only_memory.contains("<user_profile>"));
}

#[test]
fn normalizes_memory_text() {
    assert_eq!(normalize_text("\r\n\r\n  a  \r\n\n\n\nb\t\n\n"), "a\n\nb");
    assert_eq!(normalize_text("- prefers concise answers"), "- prefers concise answers");
    assert_eq!(normalize_text("   \n \n"), "");
    assert_eq!(normalize_text("x\n \n \ny"), "x\n\ny");
}

#[test]
fn clips_long_texts() {
    assert_eq!(clip_text("short", 10), "short");
    assert_eq!(clip_text("abcde   fgh", 8), "abcde\n...[truncated]");
}

#[test]
fn reads_memory_files_with_sizes() {
    assert_eq!(read_memory_file("USER.md", "", USER_MD_LIMIT), "USER.md (0/1375 chars)\n(empty)");
    assert_eq!(
        read_memory_file("MEMORY.md", "é", MEMORY_MD_LIMIT),
        "MEMORY.md (2/2200 chars)\né"
    );
}

#[test]
fn refuses_or_plans_memory_writes() {
    let long = "x".repeat(1400);
    let refused = prepare_memory_write("USER.md", &long, USER_MD_LIMIT).unwrap_err();
    assert_eq!(
        refused,
        "Error: USER.md content too long (1400 > 1375). Rewrite it more compactly and call the write tool again."
    );
    let normalized = prepare_memory_write("USER.md", "- prefers concise answers\n\n\n", USER_MD_LIMIT).unwrap();
    assert_eq!(normalized, "- prefers concise answers");
    assert_eq!(
        memory_write_reply("USER.md", &normalized, USER_MD_LIMIT, ""),
        (true, "USER.md updated (25/1375 chars).".to_string())
    );
    assert_eq!(
        memory_write_reply("USER.md", &normalized, USER_MD_LIMIT, "- prefers concise answers"),
        (false, "USER.md unchanged (25/1375 chars).".to_string())
    );
}

#[test]
fn memory_tools_require_reading_before_writing() {
    let mut state = MemoryReadState::new();
    match dispatch_memory_tool(&mut state, "write_user_md", "{\"content\":\"x\"}") {
        MemoryToolStep::Reply { text } => {
            assert_eq!(text, "Error: Read USER.md first before writing it.")
        }
        other => panic!("unexpected {other:?}"),
    }
    assert!(matches!(
        dispatch_memory_tool(&mut state, "read_user_md", "{}"),
        MemoryToolStep::ReadUser
    ));
    assert!(state.user_read && !state.memory_read);
    match dispatch_memory_tool(&mut state, "write_user_md", "{\"content\":\"hello\"}") {
        MemoryToolStep::WriteUser { content } => assert_eq!(content, "hello"),
        other => panic!("unexpected {other:?}"),
    }
    match dispatch_memory_tool(&mut state, "write_memory_md", "{\"content\":\"x\"}") {
        MemoryToolStep::Reply { text } => {
            assert_eq!(text, "Error: Read MEMORY.md first before writing it.")
        }
        other => panic!("unexpected {other:?}"),
    }
    assert!(matches!(
        dispatch_memory_tool(&mut state, "read_memory_md", ""),
        MemoryToolStep::ReadMemory
    ));
    match dispatch_memory_tool(&mut state, "write_memory_md", "not json") {
        MemoryToolStep::WriteMemory { content } => assert_eq!(content, ""),
        other => panic!("unexpected {other:?}"),
    }
    match dispatch_memory_tool(&mut state, "delete_everything", "{}") {
        MemoryToolStep::Reply { text } => assert_eq!(text, "Error: Unknown tool delete_everything"),
        other => panic!("unexpected {other:?}"),
    }
}

#[test]
fn renders_maintenance_prompt_and_restructure_flags() {
    let prompt = render_memory_maintenance_prompt(
        "{user_limit}/{memory_limit} {user_restructure}-{memory_restructure} {user_md_path} {memory_md_path} {current_user_len}/{current_memory_len} [{user_message}] [{assistant_reply}] {unknown}",
        1375,
        2200,
        "yes",
        "no",
        "/u/USER.md",
        "/u/MEMORY.md",
        10,
        0,
        "hi",
        "hello",
    );
    assert_eq!(
        prompt,
        "1375/2200 yes-no /u/USER.md /u/MEMORY.md 10/0 [hi] [hello] {unknown}"
    );
    assert!(needs_restructure(&"x".repeat(687), 1375));
    assert!(!needs_restructure(&"x".repeat(686), 1375));
    assert!(needs_restructure(&"x".repeat(1100), 2200));
    assert_eq!(maintenance_user(Some("  u1 ")), Some("u1".to_string()));
    assert_eq!(maintenance_user(Some("   ")), None);
    assert_eq!(maintenance_user(None), None);
}
