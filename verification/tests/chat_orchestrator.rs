use auto_claude::domain::chat::models::{ChatMode, HistoryEntry, SkillPermissions, UploadedFile};
use auto_claude::domain::chat::orchestrator::{
    append_reply_segment, append_system_instruction, append_uploaded_files,
    build_empty_stream_reply_error, build_response_history, build_subagent_initial_messages,
    find_sse_frame_delimiter, next_sse_frame, parse_sse_frame, resolve_max_iterations,
    skill_allowed, strip_cross_session_injections, truncate_for_preview,
};

#[test]
fn only_memory_mode_allows_self_evolution() {
    assert!(!ChatMode::Stateless.allows_self_evolution());
    assert!(ChatMode::Memory.allows_self_evolution());
    assert_eq!(ChatMode::Memory.as_str(), "memory");
    assert_eq!(ChatMode::Stateless.as_str(), "stateless");
}

#[test]
fn appends_custom_system_instruction_in_wrapped_block() {
    let prompt = append_system_instruction(
        "base prompt".to_string(),
        Some("Always summarize risks first."),
    );
    assert!(prompt.contains("base prompt"));
    assert!(prompt.contains("<custom_agent_instruction>"));
    assert!(prompt.contains("Always summarize risks first."));
}

#[test]
fn system_override_takes_precedence_over_default_base_prompt() {
    let prompt = append_system_instruction("override prompt".to_string(), Some("appendix"));
    assert!(prompt.starts_with("override prompt"));
    assert!(prompt.contains("appendix"));
}

#[test]
fn blank_system_instruction_changes_nothing() {
    assert_eq!(append_system_instruction("base".to_string(), Some("  ")), "base");
    assert_eq!(append_system_instruction("base".to_string(), None), "base");
}

#[test]
fn append_reply_segment_concatenates_multiple_visible_replies() {
    let mut reply = String::new();
    append_reply_segment(&mut reply, "第一段");
    append_reply_segment(&mut reply, "");
    append_reply_segment(&mut reply, "第二段");
    assert_eq!(reply, "第一段\n\n第二段");
}

#[test]
fn sse_frame_decoder_waits_for_complete_utf8_frame() {
    let mut buffer = b"data: {\"choices\":[{\"delta\":{\"content\":\"".to_vec();
    let chinese = "中".as_bytes();
    buffer.extend_from_slice(&chinese[..2]);

    assert!(next_sse_frame(&mut buffer).unwrap().is_none());

    buffer.extend_from_slice(&chinese[2..]);
    buffer.extend_from_slice(b"\"},\"finish_reason\":null}]}\n\n");

    let frame = next_sse_frame(&mut buffer).unwrap().unwrap();

    assert!(frame.contains("中"));
    assert!(buffer.is_empty());
}

#[test]
fn sse_frame_decoder_accepts_crlf_delimiters() {
    let mut buffer = b"data: [DONE]\r\n\r\nnext".to_vec();

    let frame = next_sse_frame(&mut buffer).unwrap().unwrap();

    assert_eq!(frame, "data: [DONE]");
    assert_eq!(buffer, b"next");
}

#[test]
fn sse_frame_decoder_prefers_blank_line_and_rejects_invalid_utf8() {
    assert_eq!(find_sse_frame_delimiter(b"a\r\n\r\nb\n\nc"), Some((6, 2)));
    assert_eq!(find_sse_frame_delimiter(b"abc"), None);
    let mut buffer = vec![0xff, 0xfe, b'\n', b'\n', b'x'];
    let err = next_sse_frame(&mut buffer).unwrap_err();
    assert_eq!(err.message(), "llm stream returned invalid utf-8");
    assert_eq!(buffer, b"x");
}

#[test]
fn parses_data_lines_of_a_frame() {
    let payloads = parse_sse_frame("event: x\ndata: {\"a\":1}\r\ndata:[DONE]  \n: comment");
    assert_eq!(payloads, vec!["{\"a\":1}".to_string(), "[DONE]".to_string()]);
    assert!(parse_sse_frame("").is_empty());
}

#[test]
fn uploaded_files_and_history() {
    let files = vec![
        UploadedFile {
            original_name: "a.txt".to_string(),
            saved_path: "uploads/a.txt".to_string(),
            size: 12,
            content_type: Some("text/plain".to_string()),
        },
        UploadedFile {
            original_name: "b.bin".to_string(),
            saved_path: "uploads/b.bin".to_string(),
            size: 0,
            content_type: None,
        },
    ];
    assert_eq!(
        append_uploaded_files("hi".to_string(), &files),
        "hi\n\n**上传的文件：**\n- a.txt (路径: uploads/a.txt, 大小: 12 bytes, 类型: text/plain)\n- b.bin (路径: uploads/b.bin, 大小: 0 bytes)\n"
    );
    assert_eq!(append_uploaded_files("hi".to_string(), &[]), "hi");

    let history = vec![HistoryEntry {
        role: "user".to_string(),
        content: "old".to_string(),
    }];
    let out = build_response_history(&history, "new", "reply");
    assert_eq!(out.len(), 3);
    assert_eq!(out[1].role, "user");
    assert_eq!(out[2].content, "reply");

    let messages = build_subagent_initial_messages("sys".to_string(), "task");
    assert_eq!(messages.len(), 2);
    assert_eq!(messages[0].role, "system");
    assert_eq!(messages[1].content.as_deref(), Some("task"));
}

#[test]
fn strips_cross_session_injections_and_their_ack() {
    let entry = |role: &str, content: &str| HistoryEntry {
        role: role.to_string(),
        content: content.to_string(),
    };
    let history = vec![
        entry("user", "<past_context>old</past_context>"),
        entry("assistant", "Noted. I'll reference this context only if relevant."),
        entry("user", "hello"),
        entry("user", "<past_context>again</past_context>"),
        entry("assistant", "real answer"),
    ];
    let cleaned = strip_cross_session_injections(history);
    let contents: Vec<&str> = cleaned.iter().map(|e| e.content.as_str()).collect();
    assert_eq!(contents, vec!["hello", "real answer"]);
}

#[test]
fn small_helpers() {
    assert_eq!(truncate_for_preview("abc", 5), "abc");
    assert_eq!(truncate_for_preview("ab  cd", 4), "ab...[truncated]");
    assert_eq!(resolve_max_iterations(Some(3), 8), 3);
    assert_eq!(resolve_max_iterations(None, 8), 8);
    assert!(build_empty_stream_reply_error("max_iterations", 8).starts_with("模型在 8 轮"));
    assert_eq!(
        build_empty_stream_reply_error("stop", 8),
        "模型返回了空白流式结果（finish_reason: stop）。系统已尝试补救生成最终答案，但仍未得到可展示内容，请重试。"
    );
    let perms = SkillPermissions {
        allowed_skills: vec![" a ".to_string()],
        denied_skills: vec!["b".to_string()],
    };
    assert!(skill_allowed("a", &perms));
    assert!(!skill_allowed("b", &perms));
    assert!(!skill_allowed("c", &perms));
    assert!(!skill_allowed("  ", &SkillPermissions::default()));
    assert!(skill_allowed("c", &SkillPermissions::default()));
}
