use auto_claude::domain::session::background::{
    command_outcome, is_dangerous, task_id_for, timeout_message, truncate, BackgroundManager,
};

#[test]
fn background_task_completes_and_notifies() {
    let mut manager = BackgroundManager::new("/tmp".to_string());
    let (started, launch) = manager.run("printf hello", 5);
    assert!(started.contains("Background task"));
    let launch = launch.expect("the command is accepted");
    assert_eq!(launch.task_id, "00000001");
    assert_eq!(launch.command, "printf hello");
    assert_eq!(manager.check(Some("00000001")), "[running] (running)");
    manager.complete(&launch.task_id, command_outcome("hello", "", true));
    let notes = manager.drain();
    assert_eq!(notes.len(), 1);
    assert_eq!(notes[0].task_id, "00000001");
    assert_eq!(notes[0].status, "completed");
    assert_eq!(notes[0].result, "hello");
    assert!(manager.drain().is_empty());
    assert_eq!(manager.check(Some(" 00000001 ")), "[completed] hello");
}

#[test]
fn refuses_blank_and_dangerous_commands() {
    let mut manager = BackgroundManager::new("/tmp".to_string());
    let (reply, launch) = manager.run("   ", 5);
    assert_eq!(reply, "Error: background_run requires a non-empty command");
    assert!(launch.is_none());
    let (reply, launch) = manager.run("sudo rm file", 5);
    assert_eq!(reply, "Error: Dangerous command blocked");
    assert!(launch.is_none());
    assert_eq!(manager.check(None), "No bg tasks.");
    assert!(is_dangerous("shutdown -h now"));
    assert!(is_dangerous("echo x && reboot"));
    assert!(is_dangerous("rm -rf /"));
    assert!(!is_dangerous("rm -rf ./build"));
}

#[test]
fn lists_tasks_and_reports_unknown_ones() {
    let mut manager = BackgroundManager::new("/tmp".to_string());
    let long = format!("echo {}", "a".repeat(100));
    let (reply, _) = manager.run(&long, 5);
    assert_eq!(reply, format!("Background task 00000001 started: {}", &long[..80]));
    manager.run("ls", 5);
    assert_eq!(
        manager.check(None),
        format!("00000001: [running] {}\n00000002: [running] ls", &long[..60])
    );
    assert_eq!(manager.check(Some("zzz")), "Unknown: zzz");
    manager.complete("00000002", command_outcome("", "boom", false));
    assert_eq!(manager.check(Some("00000002")), "[error] boom");
    manager.complete("gone", Err("Timeout (5s)".to_string()));
    let notes = manager.drain();
    assert_eq!(notes.len(), 2);
    assert_eq!(notes[1].task_id, "gone");
    assert_eq!(notes[1].status, "error");
}

#[test]
fn shapes_command_output() {
    assert_eq!(command_outcome("", "  ", true), Ok("(no output)".to_string()));
    assert_eq!(command_outcome(" out\n", "err ", false), Err("out\nerr".to_string()));
    let big = "z".repeat(60_000);
    assert_eq!(command_outcome(&big, "", true).unwrap().chars().count(), 50_000);
    assert_eq!(timeout_message(120), "Timeout (120s)");
    assert_eq!(truncate("héllo".to_string(), 2), "hé");
    assert_eq!(task_id_for(255), "000000ff");
    assert_eq!(task_id_for(0x1_2345_6789), "123456789");
}
