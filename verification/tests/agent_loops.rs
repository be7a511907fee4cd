use auto_claude::domain::chat::agent_loop::{
    subagent_tools, AgentAction, AgentEvent, AgentRunState, SubagentAction, SubagentEvent,
    SubagentState,
};
use auto_claude::domain::session::teammate::{TeammateAction, TeammateEvent, TeammateLoopState};

fn names(list: &[&str]) -> Vec<String> {
    list.iter().map(|s| s.to_string()).collect()
}

#[test]
fn agent_runs_tools_then_answers() {
    let mut run = AgentRunState::new(5, 100);
    assert_eq!(
        run.step(AgentEvent::NextRound { token_estimate: 10 }),
        AgentAction::CallModel { iteration: 1, compact_first: false }
    );
    assert_eq!(
        run.step(AgentEvent::ModelReplied {
            finish_reason: Some("tool_calls".to_string()),
            content: String::new(),
            tool_calls: names(&["read_file", "compress"]),
        }),
        AgentAction::RunTool { index: 0, name: "read_file".to_string() }
    );
    assert_eq!(
        run.step(AgentEvent::ToolFinished { steering: false }),
        AgentAction::RunTool { index: 1, name: "compress".to_string() }
    );
    assert_eq!(
        run.step(AgentEvent::ToolFinished { steering: false }),
        AgentAction::EndRound { compact: true, todo_reminder: true }
    );
    assert_eq!(
        run.step(AgentEvent::NextRound { token_estimate: 500 }),
        AgentAction::CallModel { iteration: 2, compact_first: true }
    );
    assert_eq!(
        run.step(AgentEvent::ModelReplied {
            finish_reason: None,
            content: "done".to_string(),
            tool_calls: Vec::new(),
        }),
        AgentAction::CheckSteering
    );
    assert_eq!(run.step(AgentEvent::SteeringChecked { injected: false }), AgentAction::Finish);
    assert_eq!(run.reply, "done");
    assert_eq!(run.finish_reason, "stop");
    assert_eq!(run.tool_names, names(&["read_file", "compress"]));
    assert_eq!(run.step(AgentEvent::NextRound { token_estimate: 0 }), AgentAction::Ignore);
}

#[test]
fn agent_steering_ends_round_without_reminder() {
    let mut run = AgentRunState::new(5, 100);
    run.step(AgentEvent::NextRound { token_estimate: 0 });
    run.step(AgentEvent::ModelReplied {
        finish_reason: None,
        content: String::new(),
        tool_calls: names(&["read_file", "write_file"]),
    });
    assert_eq!(
        run.step(AgentEvent::ToolFinished { steering: true }),
        AgentAction::EndRound { compact: false, todo_reminder: false }
    );
    assert_eq!(run.tool_names, names(&["read_file"]));
}

#[test]
fn agent_recovers_blank_reply_after_budget() {
    let mut run = AgentRunState::new(1, 100);
    run.step(AgentEvent::NextRound { token_estimate: 0 });
    run.step(AgentEvent::ModelReplied {
        finish_reason: Some("tool_calls".to_string()),
        content: String::new(),
        tool_calls: names(&["read_file"]),
    });
    run.step(AgentEvent::ToolFinished { steering: false });
    assert_eq!(
        run.step(AgentEvent::NextRound { token_estimate: 0 }),
        AgentAction::Recover { finish_reason: "tool_calls".to_string() }
    );
    assert_eq!(
        run.step(AgentEvent::Recovered { reply: Some("final".to_string()) }),
        AgentAction::Finish
    );
    assert_eq!(run.reply, "final");
    assert_eq!(run.finish_reason, "stop");
    assert!(run.recovered);
}

#[test]
fn agent_no_choice_finishes_as_empty() {
    let mut run = AgentRunState::new(3, 100);
    run.step(AgentEvent::NextRound { token_estimate: 0 });
    assert_eq!(
        run.step(AgentEvent::NoChoice),
        AgentAction::Recover { finish_reason: "empty".to_string() }
    );
}

#[test]
fn agent_without_recovered_answer_is_not_recovered() {
    let mut run = AgentRunState::new(3, 100);
    run.step(AgentEvent::NextRound { token_estimate: 0 });
    run.step(AgentEvent::NoChoice);
    assert_eq!(run.step(AgentEvent::Recovered { reply: None }), AgentAction::Finish);
    assert!(!run.recovered);
    assert!(!run.final_reply_recovered());
    assert!(!run.failed);
    assert_eq!(run.step(AgentEvent::Recovered { reply: Some("late".to_string()) }), AgentAction::Ignore);
}

#[test]
fn stream_keeps_text_of_rounds_with_tools() {
    let mut run = AgentRunState::new_streaming(5, 100);
    run.step(AgentEvent::NextRound { token_estimate: 0 });
    run.step(AgentEvent::ModelReplied {
        finish_reason: Some("tool_calls".to_string()),
        content: "Looking. ".to_string(),
        tool_calls: names(&["read_file"]),
    });
    run.step(AgentEvent::ToolFinished { steering: false });
    run.step(AgentEvent::NextRound { token_estimate: 0 });
    assert_eq!(
        run.step(AgentEvent::ModelReplied {
            finish_reason: None,
            content: "Done.".to_string(),
            tool_calls: Vec::new(),
        }),
        AgentAction::CheckSteering
    );
    assert_eq!(run.step(AgentEvent::SteeringChecked { injected: false }), AgentAction::Finish);
    assert_eq!(run.reply, "Looking. Done.");
    assert_eq!(run.finish_reason, "stop");
}

#[test]
fn stream_recovers_blank_round_before_steering() {
    let mut run = AgentRunState::new_streaming(5, 100);
    run.step(AgentEvent::NextRound { token_estimate: 0 });
    assert_eq!(
        run.step(AgentEvent::ModelReplied {
            finish_reason: Some("length".to_string()),
            content: "  ".to_string(),
            tool_calls: Vec::new(),
        }),
        AgentAction::Recover { finish_reason: "length".to_string() }
    );
    assert_eq!(
        run.step(AgentEvent::Recovered { reply: Some("answer".to_string()) }),
        AgentAction::CheckSteering
    );
    assert_eq!(run.step(AgentEvent::SteeringChecked { injected: false }), AgentAction::Finish);
    assert_eq!(run.reply, "answer");
    assert!(run.final_reply_recovered());
}

#[test]
fn stream_without_recovered_answer_ends_with_error() {
    let mut run = AgentRunState::new_streaming(5, 100);
    run.step(AgentEvent::NextRound { token_estimate: 0 });
    run.step(AgentEvent::ModelReplied {
        finish_reason: Some("length".to_string()),
        content: String::new(),
        tool_calls: Vec::new(),
    });
    assert_eq!(
        run.step(AgentEvent::Recovered { reply: None }),
        AgentAction::Fail {
            detail: "模型返回了空白流式结果（finish_reason: length）。系统已尝试补救生成最终答案，但仍未得到可展示内容，请重试。".to_string()
        }
    );
    assert!(run.done && run.failed);
}

#[test]
fn stream_out_of_rounds_ends_with_max_iterations() {
    let mut run = AgentRunState::new_streaming(1, 100);
    run.step(AgentEvent::NextRound { token_estimate: 0 });
    run.step(AgentEvent::ModelReplied {
        finish_reason: Some("tool_calls".to_string()),
        content: "partial".to_string(),
        tool_calls: names(&["read_file"]),
    });
    run.step(AgentEvent::ToolFinished { steering: false });
    assert_eq!(run.step(AgentEvent::NextRound { token_estimate: 0 }), AgentAction::Finish);
    assert_eq!(run.finish_reason, "max_iterations");

    let mut blank = AgentRunState::new_streaming(1, 100);
    blank.step(AgentEvent::NextRound { token_estimate: 0 });
    blank.step(AgentEvent::ModelReplied {
        finish_reason: Some("tool_calls".to_string()),
        content: String::new(),
        tool_calls: names(&["read_file"]),
    });
    blank.step(AgentEvent::ToolFinished { steering: false });
    assert_eq!(
        blank.step(AgentEvent::NextRound { token_estimate: 0 }),
        AgentAction::Recover { finish_reason: "max_iterations".to_string() }
    );
    assert_eq!(
        blank.step(AgentEvent::Recovered { reply: None }),
        AgentAction::Fail {
            detail: "模型在 1 轮工具/推理后仍未生成可展示内容。请重试，或调高当前最大轮次设置（前端 Max Iterations / 后端 AGENT_MAX_ITERATIONS）。".to_string()
        }
    );
}

#[test]
fn subagent_answers_after_tools() {
    let mut run = SubagentState::new(4);
    assert_eq!(run.step(SubagentEvent::NextRound), SubagentAction::CallModel { iteration: 1 });
    assert_eq!(
        run.step(SubagentEvent::ModelReplied { content: None, tool_calls: names(&["read_file"]) }),
        SubagentAction::RunTool { index: 0, name: "read_file".to_string() }
    );
    assert_eq!(run.step(SubagentEvent::ToolFinished), SubagentAction::CallModel { iteration: 2 });
    assert_eq!(
        run.step(SubagentEvent::ModelReplied {
            content: Some("summary".to_string()),
            tool_calls: Vec::new()
        }),
        SubagentAction::Finish { reply: "summary".to_string() }
    );
    let mut failing = SubagentState::new(4);
    failing.step(SubagentEvent::NextRound);
    assert_eq!(
        failing.step(SubagentEvent::ModelFailed { error: "timeout".to_string() }),
        SubagentAction::Finish { reply: "Error: timeout".to_string() }
    );
    let mut silent = SubagentState::new(0);
    assert_eq!(
        silent.step(SubagentEvent::NextRound),
        SubagentAction::Finish { reply: "(no summary)".to_string() }
    );
}

#[test]
fn explore_subagents_only_read() {
    let explore: Vec<String> = subagent_tools("Explore").into_iter().map(|t| t.name).collect();
    assert_eq!(explore, names(&["read_file"]));
    let general: Vec<String> =
        subagent_tools("general-purpose").into_iter().map(|t| t.name).collect();
    assert_eq!(general, names(&["read_file", "write_file", "edit_file"]));
}

#[test]
fn teammate_works_goes_idle_and_claims() {
    let mut mate = TeammateLoopState::new(50, 2);
    assert_eq!(mate.step(TeammateEvent::Ready), TeammateAction::ReadInbox);
    assert_eq!(
        mate.step(TeammateEvent::InboxRead { shutdown: false, count: 0 }),
        TeammateAction::CallModel
    );
    assert_eq!(
        mate.step(TeammateEvent::ModelReplied { tool_calls: names(&["idle", "send_message"]) }),
        TeammateAction::RunTool { index: 0, name: "idle".to_string() }
    );
    assert_eq!(
        mate.step(TeammateEvent::ToolFinished),
        TeammateAction::RunTool { index: 1, name: "send_message".to_string() }
    );
    assert_eq!(mate.step(TeammateEvent::ToolFinished), TeammateAction::GoIdle);
    assert_eq!(mate.step(TeammateEvent::Ready), TeammateAction::PollInbox);
    assert_eq!(
        mate.step(TeammateEvent::InboxRead { shutdown: false, count: 0 }),
        TeammateAction::LookForTask
    );
    assert_eq!(
        mate.step(TeammateEvent::ClaimableFound { found: true }),
        TeammateAction::ClaimAndResume
    );
    assert_eq!(mate.step(TeammateEvent::Ready), TeammateAction::ReadInbox);
}

#[test]
fn idle_teammate_shuts_down_without_work() {
    let mut mate = TeammateLoopState::new(50, 1);
    mate.step(TeammateEvent::Ready);
    mate.step(TeammateEvent::InboxRead { shutdown: false, count: 0 });
    assert_eq!(mate.step(TeammateEvent::ModelReplied { tool_calls: Vec::new() }), TeammateAction::GoIdle);
    assert_eq!(mate.step(TeammateEvent::Ready), TeammateAction::PollInbox);
    mate.step(TeammateEvent::InboxRead { shutdown: false, count: 0 });
    assert_eq!(mate.step(TeammateEvent::ClaimableFound { found: false }), TeammateAction::Shutdown);
    assert_eq!(mate.step(TeammateEvent::Ready), TeammateAction::Ignore);
    let mut stopped = TeammateLoopState::new(50, 1);
    stopped.step(TeammateEvent::Ready);
    assert_eq!(
        stopped.step(TeammateEvent::InboxRead { shutdown: true, count: 1 }),
        TeammateAction::Shutdown
    );
}
