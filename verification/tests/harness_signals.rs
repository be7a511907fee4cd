use auto_claude::domain::harness::draft::{generate_harness_decision_drafts, HarnessDecisionDraft};
use auto_claude::domain::harness::decision::HarnessDecisionStatus;
use auto_claude::domain::harness::signals::{
    severity_for_count, summarize_harness_traces, HarnessCandidateSignal, TraceFacts,
};
use auto_claude::domain::harness::trace::HarnessTraceOutcome;

fn trace(
    trace_id: &str,
    mode: &str,
    status: &str,
    finish_reason: &str,
    tool_names: &[&str],
    final_reply_recovered: bool,
    self_evolution_executed: bool,
) -> TraceFacts {
    TraceFacts {
        trace_id: trace_id.to_string(),
        mode: mode.to_string(),
        outcome: HarnessTraceOutcome {
            status: status.to_string(),
            finish_reason: finish_reason.to_string(),
            error: None,
            iterations: 3,
            tool_calls: tool_names.len(),
            tool_names: tool_names.iter().map(|item| item.to_string()).collect(),
            reply_chars: 42,
            output_files: 0,
            output_file_names: Vec::new(),
            used_skill_names: Vec::new(),
            skills_updated: 0,
            final_reply_recovered,
            self_evolution_executed,
        },
    }
}

fn average_text(total: u128, runs: usize) -> String {
    let avg = if runs == 0 { 0.0 } else { total as f32 / runs as f32 };
    format!("{:.2}", avg)
}

#[test]
fn summarizes_trace_signals_and_preserves_memory_only_policy() {
    let traces = vec![
        trace(
            "trace-3",
            "memory",
            "success",
            "max_iterations",
            &["read_file", "read_file", "task", "TodoWrite"],
            true,
            true,
        ),
        trace(
            "trace-2",
            "stateless",
            "error",
            "tool_error",
            &["read_file", "task", "task", "task"],
            false,
            false,
        ),
        trace(
            "trace-1",
            "stateless",
            "success",
            "stop",
            &["read_file", "task", "search_files", "read_file"],
            false,
            false,
        ),
    ];
    let summary = summarize_harness_traces(&traces, "4.00");

    assert_eq!(summary.inspected_traces, 3);
    assert_eq!(summary.memory_traces, 1);
    assert_eq!(summary.stateless_traces, 2);
    assert_eq!(summary.error_traces, 1);
    assert_eq!(summary.final_reply_recovered_traces, 1);
    assert_eq!(summary.max_iterations_traces, 1);
    assert_eq!(summary.self_evolution_executed_traces, 1);
    assert_eq!(summary.top_tools[0].name, "read_file");
    assert_eq!(summary.top_tools[0].count, 5);
    let avg_tool_calls = summary.total_tool_calls as f32 / summary.inspected_traces as f32;
    assert!(avg_tool_calls >= 4.0);
    assert!(summary.memory_only_self_evolution);
    assert!(summary
        .candidate_signals
        .iter()
        .any(|signal| signal.key == "max_iterations"));
    assert!(summary
        .candidate_signals
        .iter()
        .any(|signal| signal.key == "run_errors"));
    assert!(summary
        .candidate_signals
        .iter()
        .any(|signal| signal.key == "tool_churn"));
    assert_eq!(summary.recent_trace_ids, vec!["trace-3", "trace-2", "trace-1"]);
}

#[test]
fn ranks_tools_by_count_then_name() {
    let traces = vec![
        trace("a", "memory", "success", "stop", &["b", "a", "c", "c"], false, false),
        trace("b", "memory", "success", "stop", &["a", "b", "d"], false, false),
    ];
    let summary = summarize_harness_traces(&traces, "3.50");
    let ranked: Vec<(String, usize)> = summary
        .top_tools
        .iter()
        .map(|t| (t.name.clone(), t.count))
        .collect();
    assert_eq!(
        ranked,
        vec![
            ("a".to_string(), 2),
            ("b".to_string(), 2),
            ("c".to_string(), 2),
            ("d".to_string(), 1)
        ]
    );
    assert!(summary.candidate_signals.is_empty());
}

#[test]
fn keeps_only_ten_top_tools() {
    let names: Vec<String> = (0..12).map(|i| format!("tool{:02}", i)).collect();
    let refs: Vec<&str> = names.iter().map(|s| s.as_str()).collect();
    let traces = vec![trace("t", "memory", "success", "stop", &refs, false, false)];
    let summary = summarize_harness_traces(&traces, "12.00");
    assert_eq!(summary.top_tools.len(), 10);
    assert_eq!(summary.top_tools[0].name, "tool00");
    assert_eq!(summary.top_tools[9].name, "tool09");
}

#[test]
fn builds_each_candidate_signal_with_its_summary() {
    let traces = vec![
        trace("t1", "stateless", "error", "max_iterations", &["x"; 7], true, true),
        trace("t2", "stateless", "error", "max_iterations", &["x"; 7], false, false),
    ];
    let avg = average_text(14, 2);
    assert_eq!(avg, "7.00");
    let summary = summarize_harness_traces(&traces, &avg);
    let keys: Vec<&str> = summary
        .candidate_signals
        .iter()
        .map(|s| s.key.as_str())
        .collect();
    assert_eq!(
        keys,
        vec![
            "max_iterations",
            "final_reply_recovery",
            "run_errors",
            "tool_churn",
            "stateless_policy_violation"
        ]
    );
    let s = &summary.candidate_signals;
    assert_eq!(s[0].severity, "medium");
    assert_eq!(
        s[0].summary,
        "2 recent runs exhausted max_iterations; review top-level/system and tool guidance for dead loops."
    );
    assert_eq!(s[1].trace_ids, vec!["t1"]);
    assert_eq!(s[2].severity, "high");
    assert_eq!(s[3].severity, "high");
    assert_eq!(
        s[3].summary,
        "Average tool calls per run is 7.00; consider tightening tool descriptions or subagent guidance to reduce churn."
    );
    assert_eq!(s[4].severity, "high");
    assert_eq!(s[4].trace_ids, vec!["t1"]);
}

#[test]
fn no_traces_give_no_signals() {
    let summary = summarize_harness_traces(&Vec::new(), "0.00");
    assert_eq!(summary.inspected_traces, 0);
    assert!(summary.candidate_signals.is_empty());
    assert!(summary.top_tools.is_empty());
}

#[test]
fn severity_follows_thresholds() {
    assert_eq!(severity_for_count(0, 1, 3), "low");
    assert_eq!(severity_for_count(1, 1, 3), "medium");
    assert_eq!(severity_for_count(3, 1, 3), "high");
}

fn signal(key: &str) -> HarnessCandidateSignal {
    HarnessCandidateSignal {
        key: key.to_string(),
        severity: "medium".to_string(),
        summary: "Average tool calls per run is elevated".to_string(),
        trace_ids: vec!["trace-1".to_string(), "trace-2".to_string()],
    }
}

#[test]
fn generates_memory_only_drafts_from_candidate_signals() {
    let drafts: Vec<HarnessDecisionDraft> =
        generate_harness_decision_drafts(&vec![signal("tool_churn")], true, "hsnap-demo");

    assert_eq!(drafts.len(), 1);
    assert!(drafts[0].draft_id.starts_with("hdraft-"));
    assert_eq!(drafts[0].signal_key, "tool_churn");
    assert_eq!(drafts[0].mode_scope, "memory_only");
    assert_eq!(drafts[0].snapshot_before_id.as_deref(), Some("hsnap-demo"));
    assert!(drafts[0]
        .changed_surfaces
        .contains(&"tools.descriptions".to_string()));
}

#[test]
fn draft_id_hashes_the_manifest() {
    let drafts = generate_harness_decision_drafts(&vec![signal("tool_churn")], false, "hsnap-demo");
    assert_eq!(
        drafts[0].draft_id,
        "hdraft-37a3f8516b583b661232fb256d59709c4b58a46f"
    );
    assert_eq!(drafts[0].mode_scope, "all_modes");
    assert_eq!(drafts[0].recommended_status, HarnessDecisionStatus::Proposed);
    assert_eq!(drafts[0].title, "Reduce unnecessary tool churn");
}

#[test]
fn unknown_signal_gets_an_investigation_draft() {
    let drafts = generate_harness_decision_drafts(&vec![signal("odd")], true, "hsnap-demo");
    assert_eq!(drafts[0].title, "Investigate harness signal: odd");
    assert_eq!(drafts[0].rationale, "Average tool calls per run is elevated");
    assert!(drafts[0].changed_surfaces.is_empty());
    assert_eq!(drafts[0].validation_plan.len(), 3);
}
