use auto_claude::domain::chat::compaction::{
    build_compaction_payload, compaction_decision, estimate_tokens, empty_compaction, finish_compaction,
    optional_line_limit, render_transcript, summary_or_default, transcript_file,
    transcript_lines, transcript_request, CompactionDecision, LineLimitArg,
};
use auto_claude::domain::chat::message::ChatMessage;

fn qa_messages(pairs: usize, content: &str) -> Vec<ChatMessage> {
    let mut messages = vec![ChatMessage::system("system")];
    for index in 0..pairs {
        messages.push(ChatMessage::user(&format!("{content}-u{index}")));
        messages.push(ChatMessage::assistant(Some(format!("{content}-a{index}")), Vec::new()));
    }
    messages
}

fn messages_json(messages: &[ChatMessage]) -> String {
    let items: Vec<serde_json::Value> = messages
        .iter()
        .map(|m| {
            let mut object = serde_json::Map::new();
            object.insert("role".to_string(), serde_json::Value::String(m.role.clone()));
            if let Some(content) = &m.content {
                object.insert("content".to_string(), serde_json::Value::String(content.clone()));
            }
            serde_json::Value::Object(object)
        })
        .collect();
    serde_json::to_string(&items).unwrap_or_default()
}

#[test]
fn estimates_tokens_from_json_size() {
    let messages = vec![
        ChatMessage::system("system"),
        ChatMessage::user("hello"),
        ChatMessage::assistant(Some("world".to_string()), Vec::new()),
    ];
    let json = messages_json(&messages);
    assert!(estimate_tokens(&json) > 0);
    assert_eq!(estimate_tokens(&json), json.len() / 4);
    assert_eq!(estimate_tokens("abc"), 0);
    assert_eq!(estimate_tokens("中文"), 1);
}

#[test]
fn skips_compaction_below_threshold_even_with_many_qa_pairs() {
    let messages = qa_messages(6, "short");
    assert_eq!(
        compaction_decision(&messages, &messages_json(&messages), 80_000),
        CompactionDecision::Skip { token_estimate: estimate_tokens(&messages_json(&messages)), qa_pairs: 6 }
    );
}

#[test]
fn skips_compaction_within_five_qa_pairs_even_when_large() {
    let messages = qa_messages(5, &"x".repeat(80_000));
    assert_eq!(
        compaction_decision(&messages, &messages_json(&messages), 1),
        CompactionDecision::Skip { token_estimate: estimate_tokens(&messages_json(&messages)), qa_pairs: 5 }
    );
}

#[test]
fn keeps_recent_three_qa_pairs_when_threshold_is_exceeded_after_grace() {
    let messages = qa_messages(6, &"x".repeat(1000));
    assert_eq!(
        compaction_decision(&messages, &messages_json(&messages), 1),
        CompactionDecision::KeepRecentQa {
            token_estimate: estimate_tokens(&messages_json(&messages)),
            qa_pairs: 6,
            keep_pairs: 3
        }
    );
}

#[test]
fn assembles_compacted_conversations() {
    let empty = empty_compaction("/repo/.transcripts".to_string());
    assert!(empty.messages.is_empty());
    assert_eq!(empty.compacted_message_count, 0);
    let kept = vec![ChatMessage::user("recent"), ChatMessage::assistant(Some("reply".to_string()), Vec::new())];
    let outcome = finish_compaction(
        ChatMessage::system("sys"),
        4,
        kept,
        "transcript_1".to_string(),
        "/repo/.transcripts/transcript_1.jsonl".to_string(),
        Some("   ".to_string()),
    );
    assert_eq!(outcome.summary, "(no summary)");
    assert_eq!(outcome.messages.len(), 5);
    assert_eq!(outcome.messages[0].role, "system");
    assert!(outcome.messages[1].content.as_deref().unwrap().starts_with("[Compressed context]\nSummary:\n(no summary)"));
    assert_eq!(outcome.messages[2].content.as_deref(), Some("Understood. Continuing with summary context."));
    assert_eq!(outcome.messages[3].content.as_deref(), Some("recent"));
    assert_eq!(outcome.compacted_message_count, 4);
    assert_eq!(outcome.kept_message_count, 2);
    assert_eq!(summary_or_default(Some("s".to_string())), "s");
    assert_eq!(summary_or_default(None), "(no summary)");
}

#[test]
fn reads_transcripts_back() {
    assert_eq!(transcript_file("/repo", "t1"), "/repo/.transcripts/t1.jsonl");
    assert_eq!(transcript_request(Some(" t_1-a ")).unwrap(), "t_1-a");
    assert_eq!(transcript_request(Some("../x")).unwrap_err(), "invalid transcript_id");
    assert_eq!(
        transcript_request(None).unwrap_err(),
        "context_transcript_get requires a non-empty transcript_id"
    );
    assert_eq!(optional_line_limit(LineLimitArg::Absent).unwrap(), None);
    assert_eq!(optional_line_limit(LineLimitArg::Integer(-3)).unwrap(), None);
    assert_eq!(optional_line_limit(LineLimitArg::Integer(2)).unwrap(), Some(2));
    assert_eq!(
        optional_line_limit(LineLimitArg::Other).unwrap_err(),
        "context_transcript_get limit must be an integer"
    );
    assert_eq!(transcript_lines("a\nb\nc\n", Some(2)), ("a\nb\n... (1 more)".to_string(), true));
    assert_eq!(transcript_lines("a\nb", None), ("a\nb".to_string(), false));
    let expected = serde_json::to_string_pretty(&serde_json::Value::Object({
        let mut m = serde_json::Map::new();
        m.insert("transcript_id".to_string(), serde_json::Value::String("t1".to_string()));
        m.insert("path".to_string(), serde_json::Value::String("/p".to_string()));
        m.insert("truncated".to_string(), serde_json::Value::Bool(true));
        m.insert("content_jsonl".to_string(), serde_json::Value::String("{\"a\":\"é\"}\n... (1 more)".to_string()));
        m
    }))
    .unwrap();
    assert_eq!(render_transcript("t1", "/p", true, "{\"a\":\"é\"}\n... (1 more)"), expected);
}

#[test]
fn describes_compaction_decisions() {
    assert_eq!(
        build_compaction_payload(&CompactionDecision::KeepRecentQa { token_estimate: 10, qa_pairs: 6, keep_pairs: 3 }),
        "{\"decision\":\"keep_recent_qa\",\"keep_pairs\":3,\"qa_pairs\":6,\"reason\":\"over_token_threshold_keep_recent_qa\",\"token_estimate\":10}"
    );
    assert_eq!(
        build_compaction_payload(&CompactionDecision::Skip { token_estimate: 1, qa_pairs: 2 }),
        "{\"decision\":\"skip\",\"qa_pairs\":2,\"reason\":\"below_token_threshold_or_within_qa_grace\",\"token_estimate\":1}"
    );
}
