use auto_claude::domain::chat::compaction::{
    count_qa_pairs, decide_compaction, is_safe_transcript_id, microcompact,
    render_compacted_context_message, split_recent_qa_tail, truncate_chars, CompactionDecision,
    CONTEXT_TRANSCRIPT_GET_TOOL,
};
use auto_claude::domain::chat::message::ChatMessage;

fn qa_messages(pairs: usize, content: &str) -> Vec<ChatMessage> {
    let mut messages = vec![ChatMessage::system("system")];
    for index in 0..pairs {
        messages.push(ChatMessage::user(&format!("{content}-u{index}")));
        messages.push(ChatMessage::assistant(
            Some(format!("{content}-a{index}")),
            Vec::new(),
        ));
    }
    messages
}

#[test]
fn clears_old_tool_results_but_keeps_last_three() {
    let mut messages = vec![ChatMessage::system("system")];
    for index in 0..5 {
        messages.push(ChatMessage::tool(&format!("tool-{index}"), &"x".repeat(150)));
    }

    microcompact(&mut messages);

    assert_eq!(messages[1].content.as_deref(), Some("[cleared]"));
    assert_eq!(messages[2].content.as_deref(), Some("[cleared]"));
    assert_ne!(messages[3].content.as_deref(), Some("[cleared]"));
    assert_ne!(messages[4].content.as_deref(), Some("[cleared]"));
    assert_ne!(messages[5].content.as_deref(), Some("[cleared]"));
}

#[test]
fn microcompact_keeps_short_results_and_small_conversations() {
    let mut messages = vec![ChatMessage::system("system")];
    for index in 0..3 {
        messages.push(ChatMessage::tool(&format!("tool-{index}"), &"x".repeat(150)));
    }
    microcompact(&mut messages);
    assert!(messages.iter().all(|m| m.content.as_deref() != Some("[cleared]")));

    let mut messages = vec![
        ChatMessage::tool("a", "short"),
        ChatMessage::tool("b", &"y".repeat(101)),
        ChatMessage::tool("c", &"y".repeat(100)),
        ChatMessage::user("question"),
        ChatMessage::tool("d", "1"),
        ChatMessage::tool("e", "2"),
        ChatMessage::tool("f", "3"),
    ];
    microcompact(&mut messages);
    assert_eq!(messages[0].content.as_deref(), Some("short"));
    assert_eq!(messages[1].content.as_deref(), Some("[cleared]"));
    assert_eq!(messages[2].content.as_deref(), Some("y".repeat(100).as_str()));
    assert_eq!(messages[3].content.as_deref(), Some("question"));
    // multi-byte characters count by their UTF-8 bytes: 34 chars of 3 bytes
    let mut messages = vec![
        ChatMessage::tool("a", &"中".repeat(34)),
        ChatMessage::tool("d", "1"),
        ChatMessage::tool("e", "2"),
        ChatMessage::tool("f", "3"),
    ];
    microcompact(&mut messages);
    assert_eq!(messages[0].content.as_deref(), Some("[cleared]"));
}

#[test]
fn counts_question_answer_pairs_and_decides() {
    let messages = qa_messages(6, "short");
    assert_eq!(count_qa_pairs(&messages), 6);
    assert_eq!(
        decide_compaction(&messages, 100, 80_000),
        CompactionDecision::Skip {
            token_estimate: 100,
            qa_pairs: 6
        }
    );
    let messages = qa_messages(5, "long");
    assert_eq!(
        decide_compaction(&messages, 90_000, 1),
        CompactionDecision::Skip {
            token_estimate: 90_000,
            qa_pairs: 5
        }
    );
    let messages = qa_messages(6, "long");
    let decision = decide_compaction(&messages, 2_000, 1);
    assert_eq!(
        decision,
        CompactionDecision::KeepRecentQa {
            token_estimate: 2_000,
            qa_pairs: 6,
            keep_pairs: 3
        }
    );
    assert!(decision.should_compact());
    assert_eq!(decision.reason(), "over_token_threshold_keep_recent_qa");
    assert_eq!(
        CompactionDecision::Skip {
            token_estimate: 0,
            qa_pairs: 0
        }
        .reason(),
        "below_token_threshold_or_within_qa_grace"
    );
    assert_eq!(
        CompactionDecision::CompactAll {
            token_estimate: 0,
            qa_pairs: 0
        }
        .reason(),
        "over_token_threshold_without_recent_qa_window"
    );

    let mut with_tools = vec![ChatMessage::user("q")];
    with_tools.push(ChatMessage::assistant(
        None,
        vec![auto_claude::domain::chat::message::ToolCall {
            id: "1".to_string(),
            kind: "function".to_string(),
            function: auto_claude::domain::chat::message::FunctionCall {
                name: "read_file".to_string(),
                arguments: "{}".to_string(),
            },
        }],
    ));
    assert_eq!(count_qa_pairs(&with_tools), 0);
    with_tools.push(ChatMessage::assistant(Some("a".to_string()), Vec::new()));
    assert_eq!(count_qa_pairs(&with_tools), 1);
}

#[test]
fn recent_qa_split_ignores_tool_messages_for_pair_counting() {
    let mut tail = Vec::new();
    for index in 0..6 {
        tail.push(ChatMessage::user(&format!("u{index}")));
        tail.push(ChatMessage::assistant(
            Some(format!("a{index}")),
            Vec::new(),
        ));
        tail.push(ChatMessage::tool(&format!("tool-{index}"), "tool-output"));
    }

    let (_compactable, kept) = split_recent_qa_tail(tail, Some(3));

    assert_eq!(
        kept.iter().filter(|message| message.role == "user").count(),
        3
    );
    assert_eq!(
        kept.iter()
            .filter(|message| message.role == "assistant")
            .count(),
        3
    );
}

#[test]
fn recent_qa_split_without_pairs_keeps_nothing() {
    let tail = vec![ChatMessage::user("u"), ChatMessage::tool("t", "x")];
    let (compactable, kept) = split_recent_qa_tail(tail, Some(2));
    assert_eq!(compactable.len(), 2);
    assert!(kept.is_empty());

    let tail = qa_messages(2, "c");
    let (compactable, kept) = split_recent_qa_tail(tail, None);
    assert_eq!(compactable.len(), 5);
    assert!(kept.is_empty());

    let tail = qa_messages(2, "c");
    let (compactable, kept) = split_recent_qa_tail(tail, Some(5));
    assert_eq!(compactable.len(), 1);
    assert_eq!(kept.len(), 4);
    assert_eq!(kept[0].content.as_deref(), Some("c-u0"));
}

#[test]
fn compacted_context_message_points_agent_to_full_transcript() {
    let message = render_compacted_context_message("transcript_1", "short summary");

    assert!(message.contains("transcript_id: transcript_1"));
    assert!(message.contains(CONTEXT_TRANSCRIPT_GET_TOOL));
    assert!(!message.contains("read_file"));
}

#[test]
fn transcript_ids_and_truncation() {
    assert!(is_safe_transcript_id("transcript_123-a"));
    assert!(!is_safe_transcript_id("../etc"));
    assert!(!is_safe_transcript_id("a b"));
    assert_eq!(truncate_chars("héllo".to_string(), 2), "hé");
    assert_eq!(truncate_chars("abc".to_string(), 3), "abc");
}
