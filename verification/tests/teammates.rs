use auto_claude::domain::chat::message::ChatMessage;
use auto_claude::domain::session::teammate::{
    absorb_inbox, idle_poll_count, note_auto_claim, shutdown_request_id, teammate_system_prompt,
    teammate_tool, TeammateManager, TeammateTool,
};

#[test]
fn shutdown_request_requires_known_teammate() {
    let mut manager = TeammateManager::new(None);
    assert_eq!(
        manager.handle_shutdown_request("missing").unwrap(),
        ("Error: Unknown teammate 'missing'".to_string(), None)
    );
    assert_eq!(
        manager.handle_shutdown_request("  ").unwrap_err(),
        "shutdown_request requires a non-empty teammate"
    );
}

#[test]
fn spawns_lists_and_shuts_down_teammates() {
    let mut manager = TeammateManager::new(None);
    assert_eq!(manager.list_all(&vec![]), "No teammates.");
    let (reply, launch) = manager.spawn(" alice ", "coder", " write tests ").unwrap();
    assert_eq!(reply, "Spawned 'alice' (role: coder)");
    let launch = launch.unwrap();
    assert_eq!(launch.prompt, "write tests");
    let (reply, launch) = manager.spawn("alice", "tester", "again").unwrap();
    assert_eq!(reply, "Error: 'alice' is currently working");
    assert!(launch.is_none());
    assert_eq!(
        manager.list_all(&vec!["alice".to_string()]),
        "Team: default\n  alice (coder): working [thread:alive]"
    );
    manager.set_status("alice", "idle");
    let (reply, _) = manager.spawn("alice", "tester", "again").unwrap();
    assert_eq!(reply, "Spawned 'alice' (role: tester)");
    assert_eq!(manager.spawn("", "r", "p").unwrap_err(), "spawn_teammate requires a non-empty name");
    assert_eq!(manager.spawn("n", " ", "p").unwrap_err(), "spawn_teammate requires a non-empty role");
    assert_eq!(manager.spawn("n", "r", "").unwrap_err(), "spawn_teammate requires a non-empty prompt");
    let (reply, id) = manager.handle_shutdown_request("alice").unwrap();
    assert_eq!(reply, "Shutdown request 00000001 sent to 'alice'");
    assert_eq!(id, Some("00000001".to_string()));
    assert_eq!(shutdown_request_id(&reply, "x".to_string()), "00000001");
    assert_eq!(shutdown_request_id("one two", "fallback".to_string()), "fallback");
    manager.shutdown_all();
    assert_eq!(
        manager.list_all(&vec![]),
        "Team: default\n  alice (tester): shutdown [thread:dead]"
    );
    assert_eq!(manager.member_names(), vec!["alice".to_string()]);
}

#[test]
fn work_loop_decisions() {
    assert_eq!(teammate_tool("idle"), TeammateTool::Idle);
    assert_eq!(teammate_tool("claim_task"), TeammateTool::ClaimTask);
    assert_eq!(teammate_tool("send_message"), TeammateTool::SendMessage);
    assert_eq!(teammate_tool("edit_file"), TeammateTool::File);
    assert_eq!(teammate_tool("rm"), TeammateTool::Unknown);
    assert_eq!(idle_poll_count(60_000, 5_000), 12);
    assert_eq!(idle_poll_count(60_001, 5_000), 13);
    assert_eq!(idle_poll_count(0, 5_000), 1);
    assert_eq!(idle_poll_count(10, 0), 10);
    assert_eq!(
        teammate_system_prompt("bob", "qa", "default", "/repo"),
        "You are 'bob', role: qa, team: default, at /repo. Use idle when done with current work. You may auto-claim tasks."
    );

    let mut messages = vec![ChatMessage::user("start")];
    let stop = absorb_inbox(&mut messages, &vec![(false, "{\"a\":1}".to_string())]);
    assert!(!stop);
    assert_eq!(messages.len(), 2);
    assert!(absorb_inbox(&mut messages, &vec![(false, "x".to_string()), (true, "bye".to_string())]));

    let mut short = vec![ChatMessage::user("start")];
    note_auto_claim(&mut short, "bob", "qa", "default", 7, "Fix", "details");
    assert_eq!(short.len(), 5);
    assert_eq!(
        short[0].content.as_deref(),
        Some("<identity>You are 'bob', role: qa, team: default.</identity>")
    );
    assert_eq!(short[1].content.as_deref(), Some("I am bob. Continuing."));
    assert_eq!(
        short[3].content.as_deref(),
        Some("<auto-claimed>Task #7: Fix\ndetails</auto-claimed>")
    );
    assert_eq!(short[4].content.as_deref(), Some("Claimed task #7. Working on it."));
}
