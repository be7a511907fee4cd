use auto_claude::domain::events::service::{EventItem, EventService};
use auto_claude::domain::session::message_bus::MessageBus;

#[test]
fn can_create_empty_inbox_file() {
    let bus = MessageBus::new("/tmp/team");
    let path = bus.inbox_to_create("alice").unwrap();
    assert!(path.ends_with("inbox/alice.jsonl"));
    assert_eq!(path, "/tmp/team/inbox/alice.jsonl");
    assert!(bus.inbox_to_create("  ").is_none());
}

#[test]
fn sends_and_reads_messages() {
    let bus = MessageBus::new("/tmp/team");
    assert_eq!(bus.send_reply("lead", "message"), "Sent message to lead");
    let items = bus.inbox_messages("{\"content\":\"hello\"}\n\n  \n{\"b\":1}\n");
    assert_eq!(items, vec!["{\"content\":\"hello\"}".to_string(), "{\"b\":1}".to_string()]);
    assert!(bus.inbox_messages("").is_empty());
    let names = vec!["lead".to_string(), "alice".to_string(), "bob".to_string()];
    assert_eq!(bus.broadcast_targets(&names, "lead"), vec!["alice".to_string(), "bob".to_string()]);
    assert_eq!(bus.broadcast_reply(2), "Broadcast to 2 teammates");
}

#[test]
fn emits_and_lists_recent_events() {
    let events = EventService::new("/repo");
    assert_eq!(events.path, "/repo/.worktrees/events.jsonl");
    let log = "{\"event\":\"a\"}\n{\"event\":\"b\"}\n{\"event\":\"c\"}\n";
    assert_eq!(events.list_recent(log, 2), vec!["{\"event\":\"b\"}".to_string(), "{\"event\":\"c\"}".to_string()]);
    assert_eq!(events.list_recent(log, 0), vec!["{\"event\":\"c\"}".to_string()]);
    assert_eq!(events.list_recent(log, 20).len(), 3);
}

#[test]
fn lines_that_are_not_json_are_listed_as_parse_errors() {
    let events = EventService::new("/repo");
    let log = "{\"event\":\"a\"}\nnot json\n{\"event\":\"c\"}\n";
    assert_eq!(
        events.recent_items(log, 20),
        vec![
            EventItem::Record("{\"event\":\"a\"}".to_string()),
            EventItem::ParseError("not json".to_string()),
            EventItem::Record("{\"event\":\"c\"}".to_string()),
        ]
    );
    assert_eq!(events.recent_items(log, 1), vec![EventItem::Record("{\"event\":\"c\"}".to_string())]);
}
