use auto_claude::domain::run_capture::{
    recent_runs, step_file, AgentRunRecorder, AgentRunStepKind,
};

#[test]
fn starts_records_and_finishes_runs() {
    let (recorder, mut manifest) = AgentRunRecorder::start(
        "/repo",
        "u1",
        "htrace-123",
        Some("s1".to_string()),
        "memory",
        "chat",
        "model-x",
        "snap-1",
        1000,
    );
    assert_eq!(recorder.run_id(), "arun-123");
    assert_eq!(manifest.run_id, "arun-123");
    assert_eq!(manifest.status, "running");
    assert_eq!(manifest.step_count, 0);
    recorder.record_step(&mut manifest, 0);
    recorder.record_step(&mut manifest, 1);
    assert_eq!(manifest.step_count, 2);
    assert_eq!(manifest.last_step_index, Some(1));
    recorder.finish(&mut manifest, "completed", Some("stop".to_string()), None, 2000);
    assert_eq!(manifest.status, "completed");
    assert_eq!(manifest.finished_at_ms, Some(2000));
    assert_eq!(manifest.finish_reason.as_deref(), Some("stop"));

    let (other, _) = AgentRunRecorder::start(
        "/repo", "u1", "htrace-htrace-9", None, "m", "k", "x", "s", 0,
    );
    assert_eq!(other.run_id(), "arun-9");
    let (plain, _) = AgentRunRecorder::start("/repo", "u1", "trace", None, "m", "k", "x", "s", 0);
    assert_eq!(plain.run_id(), "arun-trace");
}

#[test]
fn names_steps_and_step_files() {
    assert_eq!(AgentRunStepKind::InitialState.as_str(), "initial_state");
    assert_eq!(AgentRunStepKind::LlmResponse.as_str(), "llm_response");
    assert_eq!(AgentRunStepKind::Final.as_str(), "final");
    assert_eq!(step_file(7), "000007.json");
    assert_eq!(step_file(1_234_567), "1234567.json");
}

#[test]
fn lists_latest_runs_first() {
    let started = vec![10u128, 30, 20, 30];
    let listed = recent_runs(&started, 3);
    assert_eq!(listed, vec![(1, 30), (3, 30), (2, 20)]);
    assert_eq!(recent_runs(&started, 0).len(), 1);
    assert_eq!(recent_runs(&vec![], 5), Vec::<(usize, u128)>::new());
}
