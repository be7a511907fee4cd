//! The decisions of the agent's tool loop, as a step from a state and an event
//! to the next state and an action. The caller performs each action (calling
//! the model, running a tool, reading the steering inbox, compacting the
//! context) and hands back what came of it as the next event. The synchronous
//! chat and the streaming chat share the step, which decides as each of them
//! does where they differ: the streaming reply gathers the text of every
//! round, a streamed round that ends blank asks for recovery before the
//! steering inbox is read, a stream that runs out of rounds ends with the
//! finish reason `max_iterations`, and a stream whose recovery gives nothing
//! ends with an error.

use vstd::prelude::*;

use crate::domain::chat::orchestrator::{
    append_reply_segment, build_empty_stream_reply_error, empty_stream_reply_text,
    with_reply_segment,
};
use crate::domain::chat::tool_schema::{
    schema_entries_of, schema_parameters, tool_parameter, tool_schema, ToolSchema,
};
use crate::lists::texts;
use crate::text::{concat2, is_blank, owned, push_str, str_eq, trim_seq};

verus! {

/// Where a run of the agent stands.
pub struct AgentRunState {
    /// Whether the run streams its reply.
    pub streaming: bool,
    /// How many model rounds the run may take.
    pub max_iterations: usize,
    /// The estimated context size above which the context is compacted
    /// before a model round.
    pub token_threshold: usize,
    /// The model rounds begun so far.
    pub iterations: usize,
    /// The visible reply so far.
    pub reply: String,
    /// Why the model last stopped.
    pub finish_reason: String,
    /// The names of the tools run so far, in order.
    pub tool_names: Vec<String>,
    /// The tools the model asked for in the current round.
    pub turn_tools: Vec<String>,
    /// The first tool of the round not run yet.
    pub next_tool: usize,
    /// Whether the round asked for compression.
    pub compress_requested: bool,
    /// Whether the recovery prompt was asked and its answer is awaited.
    pub awaiting_recovery: bool,
    /// Whether the recovery prompt gave the reply.
    pub recovered: bool,
    /// Whether the run is over.
    pub done: bool,
    /// Whether the run ended with an error.
    pub failed: bool,
}

pub struct AgentRunView {
    pub streaming: bool,
    pub max_iterations: usize,
    pub token_threshold: usize,
    pub iterations: usize,
    pub reply: Seq<char>,
    pub finish_reason: Seq<char>,
    pub tool_names: Seq<Seq<char>>,
    pub turn_tools: Seq<Seq<char>>,
    pub next_tool: usize,
    pub compress_requested: bool,
    pub awaiting_recovery: bool,
    pub recovered: bool,
    pub done: bool,
    pub failed: bool,
}

impl View for AgentRunState {
    type V = AgentRunView;

    open spec fn view(&self) -> AgentRunView {
        AgentRunView {
            streaming: self.streaming,
            max_iterations: self.max_iterations,
            token_threshold: self.token_threshold,
            iterations: self.iterations,
            reply: self.reply@,
            finish_reason: self.finish_reason@,
            tool_names: texts(self.tool_names@),
            turn_tools: texts(self.turn_tools@),
            next_tool: self.next_tool,
            compress_requested: self.compress_requested,
            awaiting_recovery: self.awaiting_recovery,
            recovered: self.recovered,
            done: self.done,
            failed: self.failed,
        }
    }
}

/// What came of the last action.
pub enum AgentEvent {
    /// The caller is ready for the next model round; the context's estimated
    /// size in tokens.
    NextRound { token_estimate: usize },
    /// The model answered with no choice at all.
    NoChoice,
    /// The model answered: why it stopped, its visible text (for a stream, the
    /// text of all the round's deltas) and the tools it asked for, in order.
    ModelReplied { finish_reason: Option<String>, content: String, tool_calls: Vec<String> },
    /// The steering inbox was read after a reply without tools; whether
    /// steering messages were added to the conversation.
    SteeringChecked { injected: bool },
    /// The current tool ran and its result was added; whether steering
    /// messages arrived and interrupted the round.
    ToolFinished { steering: bool },
    /// The recovery prompt was answered; the reply it gave, if visible.
    Recovered { reply: Option<String> },
}

pub enum AgentEventView {
    NextRound { token_estimate: usize },
    NoChoice,
    ModelReplied { finish_reason: Option<Seq<char>>, content: Seq<char>, tool_calls: Seq<Seq<char>> },
    SteeringChecked { injected: bool },
    ToolFinished { steering: bool },
    Recovered { reply: Option<Seq<char>> },
}

pub open spec fn opt_text(o: Option<String>) -> Option<Seq<char>> {
    match o {
        Some(s) => Some(s@),
        None => None,
    }
}

pub open spec fn event_view(e: AgentEvent) -> AgentEventView {
    match e {
        AgentEvent::NextRound { token_estimate } => AgentEventView::NextRound { token_estimate },
        AgentEvent::NoChoice => AgentEventView::NoChoice,
        AgentEvent::ModelReplied { finish_reason, content, tool_calls } => AgentEventView::ModelReplied {
            finish_reason: opt_text(finish_reason),
            content: content@,
            tool_calls: texts(tool_calls@),
        },
        AgentEvent::SteeringChecked { injected } => AgentEventView::SteeringChecked { injected },
        AgentEvent::ToolFinished { steering } => AgentEventView::ToolFinished { steering },
        AgentEvent::Recovered { reply } => AgentEventView::Recovered { reply: opt_text(reply) },
    }
}

/// What the caller is to do next.
#[derive(Debug, Clone, PartialEq, Eq)]
pub enum AgentAction {
    /// Microcompact the context, compact it fully first where asked, add the
    /// session's pending messages and call the model for this round.
    CallModel { iteration: usize, compact_first: bool },
    /// Read the steering inbox and add what it holds to the conversation.
    CheckSteering,
    /// Run the tool of the round at this position, then check for steering.
    RunTool { index: usize, name: String },
    /// Close the round: keep the tool results within the turn budget, compact
    /// the context where asked, add the todo reminder where asked, and go on
    /// with the next round.
    EndRound { compact: bool, todo_reminder: bool },
    /// The reply is blank: ask the model for a final answer with the recovery
    /// prompt for this finish reason.
    Recover { finish_reason: String },
    /// The run is over.
    Finish,
    /// The stream is over without a visible reply: send this error.
    Fail { detail: String },
    /// The event does not fit where the run stands; nothing changes.
    Ignore,
}

pub enum AgentActionView {
    CallModel { iteration: usize, compact_first: bool },
    CheckSteering,
    RunTool { index: usize, name: Seq<char> },
    EndRound { compact: bool, todo_reminder: bool },
    Recover { finish_reason: Seq<char> },
    Finish,
    Fail { detail: Seq<char> },
    Ignore,
}

pub open spec fn action_view(a: AgentAction) -> AgentActionView {
    match a {
        AgentAction::CallModel { iteration, compact_first } => AgentActionView::CallModel {
            iteration,
            compact_first,
        },
        AgentAction::CheckSteering => AgentActionView::CheckSteering,
        AgentAction::RunTool { index, name } => AgentActionView::RunTool { index, name: name@ },
        AgentAction::EndRound { compact, todo_reminder } => AgentActionView::EndRound {
            compact,
            todo_reminder,
        },
        AgentAction::Recover { finish_reason } => AgentActionView::Recover {
            finish_reason: finish_reason@,
        },
        AgentAction::Finish => AgentActionView::Finish,
        AgentAction::Fail { detail } => AgentActionView::Fail { detail: detail@ },
        AgentAction::Ignore => AgentActionView::Ignore,
    }
}

/// The run is over: a blank reply first gets one recovery attempt.
pub open spec fn finished(s: AgentRunView) -> (AgentRunView, AgentActionView) {
    if trim_seq(s.reply).len() == 0 {
        (
            AgentRunView { done: true, awaiting_recovery: true, ..s },
            AgentActionView::Recover { finish_reason: s.finish_reason },
        )
    } else {
        (AgentRunView { done: true, ..s }, AgentActionView::Finish)
    }
}

/// Runs the tool at `next_tool`, recording its name.
pub open spec fn run_next(s: AgentRunView) -> (AgentRunView, AgentActionView) {
    (
        AgentRunView { tool_names: s.tool_names.push(s.turn_tools[s.next_tool as int]), ..s },
        AgentActionView::RunTool { index: s.next_tool, name: s.turn_tools[s.next_tool as int] },
    )
}

/// The error a stream ends with when it has no visible reply.
pub open spec fn stream_failure(s: AgentRunView) -> (AgentRunView, AgentActionView) {
    (
        AgentRunView { done: true, failed: true, awaiting_recovery: false, ..s },
        AgentActionView::Fail {
            detail: empty_stream_reply_text(s.finish_reason, s.max_iterations as nat),
        },
    )
}

/// The answer to the recovery prompt: a visible answer becomes the reply,
/// with finish reason `stop`. In the middle of a stream the steering inbox
/// is read next; at the end of a run the run is over. A stream without an
/// answer ends with its error.
pub open spec fn recovery_answered(s: AgentRunView, reply: Option<Seq<char>>) -> (
    AgentRunView,
    AgentActionView,
) {
    match reply {
        Some(r) => (
            AgentRunView {
                reply: r,
                finish_reason: "stop"@,
                recovered: true,
                awaiting_recovery: false,
                ..s
            },
            if s.done {
                AgentActionView::Finish
            } else {
                AgentActionView::CheckSteering
            },
        ),
        None => if s.streaming {
            stream_failure(s)
        } else {
            (AgentRunView { awaiting_recovery: false, ..s }, AgentActionView::Finish)
        },
    }
}

/// One step of the run: the next state and what to do.
///
/// - A new round begins while rounds are left, compacting first when the
///   context is over the threshold. When none is left the run is over; a
///   stream then takes the finish reason `max_iterations`.
/// - A reply without tools adds its visible text to the reply, then the
///   steering inbox is read: steering that arrived starts another round,
///   else the run is over. A reply with tools runs them in order; a stream
///   adds the text of such a reply to its reply too. A streamed reply without
///   tools that leaves the reply blank first asks for recovery.
/// - After each tool, steering ends the round early (without the todo
///   reminder); after the last tool the round ends with the reminder. The
///   round compacts the context when one of its tools asked for `compress`.
/// - A run that ends with a blank reply asks once for a final answer (see
///   `recovery_answered`).
pub open spec fn agent_step_spec(s: AgentRunView, e: AgentEventView) -> (AgentRunView, AgentActionView) {
    if s.awaiting_recovery {
        match e {
            AgentEventView::Recovered { reply } => recovery_answered(s, reply),
            _ => (s, AgentActionView::Ignore),
        }
    } else if s.done {
        (s, AgentActionView::Ignore)
    } else {
        match e {
            AgentEventView::NextRound { token_estimate } => if s.iterations >= s.max_iterations {
                if s.streaming {
                    finished(AgentRunView { finish_reason: "max_iterations"@, ..s })
                } else {
                    finished(s)
                }
            } else {
                (
                    AgentRunView {
                        iterations: (s.iterations + 1) as usize,
                        turn_tools: Seq::empty(),
                        next_tool: 0,
                        compress_requested: false,
                        ..s
                    },
                    AgentActionView::CallModel {
                        iteration: (s.iterations + 1) as usize,
                        compact_first: token_estimate > s.token_threshold,
                    },
                )
            },
            AgentEventView::NoChoice => if s.streaming {
                (s, AgentActionView::Ignore)
            } else {
                finished(AgentRunView { finish_reason: "empty"@, ..s })
            },
            AgentEventView::ModelReplied { finish_reason, content, tool_calls } => {
                let fr = match finish_reason {
                    Some(f) => f,
                    None => "stop"@,
                };
                if s.streaming {
                    let t = AgentRunView { finish_reason: fr, reply: s.reply + content, ..s };
                    if tool_calls.len() == 0 {
                        let u = AgentRunView { turn_tools: Seq::empty(), next_tool: 0, ..t };
                        if trim_seq(u.reply).len() == 0 {
                            (
                                AgentRunView { awaiting_recovery: true, ..u },
                                AgentActionView::Recover { finish_reason: fr },
                            )
                        } else {
                            (u, AgentActionView::CheckSteering)
                        }
                    } else {
                        run_next(
                            AgentRunView {
                                turn_tools: tool_calls,
                                next_tool: 0,
                                compress_requested: false,
                                ..t
                            },
                        )
                    }
                } else if tool_calls.len() == 0 {
                    (
                        AgentRunView {
                            finish_reason: fr,
                            reply: with_reply_segment(s.reply, content),
                            turn_tools: Seq::empty(),
                            next_tool: 0,
                            ..s
                        },
                        AgentActionView::CheckSteering,
                    )
                } else {
                    run_next(
                        AgentRunView {
                            finish_reason: fr,
                            turn_tools: tool_calls,
                            next_tool: 0,
                            compress_requested: false,
                            ..s
                        },
                    )
                }
            },
            AgentEventView::SteeringChecked { injected } => if s.turn_tools.len() != 0 {
                (s, AgentActionView::Ignore)
            } else if injected {
                (s, AgentActionView::EndRound { compact: false, todo_reminder: false })
            } else {
                finished(s)
            },
            AgentEventView::ToolFinished { steering } => if s.next_tool >= s.turn_tools.len() {
                (s, AgentActionView::Ignore)
            } else {
                let t = AgentRunView {
                    compress_requested: s.compress_requested || s.turn_tools[s.next_tool as int]
                        == "compress"@,
                    next_tool: (s.next_tool + 1) as usize,
                    ..s
                };
                if steering {
                    (t, AgentActionView::EndRound { compact: t.compress_requested, todo_reminder: false })
                } else if t.next_tool < t.turn_tools.len() {
                    run_next(t)
                } else {
                    (t, AgentActionView::EndRound { compact: t.compress_requested, todo_reminder: true })
                }
            },
            AgentEventView::Recovered { .. } => (s, AgentActionView::Ignore),
        }
    }
}

/// The state of a new run.
pub open spec fn initial_run(streaming: bool, max_iterations: usize, token_threshold: usize) -> AgentRunView {
    AgentRunView {
        streaming,
        max_iterations,
        token_threshold,
        iterations: 0,
        reply: Seq::empty(),
        finish_reason: "stop"@,
        tool_names: Seq::empty(),
        turn_tools: Seq::empty(),
        next_tool: 0,
        compress_requested: false,
        awaiting_recovery: false,
        recovered: false,
        done: false,
        failed: false,
    }
}

impl AgentRunState {
    fn start(streaming: bool, max_iterations: usize, token_threshold: usize) -> (s: Self)
        ensures
            s@ == initial_run(streaming, max_iterations, token_threshold),
            s.next_tool <= s.turn_tools@.len(),
    {
        let s = AgentRunState {
            streaming,
            max_iterations,
            token_threshold,
            iterations: 0,
            reply: String::new(),
            finish_reason: owned("stop"),
            tool_names: Vec::new(),
            turn_tools: Vec::new(),
            next_tool: 0,
            compress_requested: false,
            awaiting_recovery: false,
            recovered: false,
            done: false,
            failed: false,
        };
        assert(texts(s.tool_names@) =~= Seq::<Seq<char>>::empty());
        assert(texts(s.turn_tools@) =~= Seq::<Seq<char>>::empty());
        s
    }

    /// A synchronous run that may take `max_iterations` model rounds.
    pub fn new(max_iterations: usize, token_threshold: usize) -> (s: Self)
        ensures
            s@ == initial_run(false, max_iterations, token_threshold),
            s.next_tool <= s.turn_tools@.len(),
    {
        Self::start(false, max_iterations, token_threshold)
    }

    /// A streaming run that may take `max_iterations` model rounds.
    pub fn new_streaming(max_iterations: usize, token_threshold: usize) -> (s: Self)
        ensures
            s@ == initial_run(true, max_iterations, token_threshold),
            s.next_tool <= s.turn_tools@.len(),
    {
        Self::start(true, max_iterations, token_threshold)
    }

    /// Whether the final reply came from the recovery prompt: it did, and it
    /// is visible.
    pub fn final_reply_recovered(&self) -> (r: bool)
        ensures
            r == (self.recovered && trim_seq(self.reply@).len() > 0),
    {
        self.recovered && !is_blank(self.reply.as_str())
    }

    fn finish(&mut self) -> (a: AgentAction)
        ensures
            (final(self)@, action_view(a)) == finished(old(self)@),
            final(self).next_tool == old(self).next_tool,
            final(self).turn_tools == old(self).turn_tools,
    {
        self.done = true;
        if is_blank(self.reply.as_str()) {
            self.awaiting_recovery = true;
            AgentAction::Recover { finish_reason: owned(self.finish_reason.as_str()) }
        } else {
            AgentAction::Finish
        }
    }

    fn fail(&mut self) -> (a: AgentAction)
        ensures
            (final(self)@, action_view(a)) == stream_failure(old(self)@),
            final(self).next_tool == old(self).next_tool,
            final(self).turn_tools == old(self).turn_tools,
    {
        self.done = true;
        self.failed = true;
        self.awaiting_recovery = false;
        AgentAction::Fail {
            detail: build_empty_stream_reply_error(self.finish_reason.as_str(), self.max_iterations),
        }
    }

    fn run_next(&mut self) -> (a: AgentAction)
        requires
            old(self).next_tool < old(self).turn_tools@.len(),
        ensures
            (final(self)@, action_view(a)) == run_next(old(self)@),
            final(self).next_tool == old(self).next_tool,
            final(self).turn_tools == old(self).turn_tools,
    {
        let i = self.next_tool;
        let name = owned(self.turn_tools[i].as_str());
        let ghost before = texts(self.tool_names@);
        self.tool_names.push(owned(self.turn_tools[i].as_str()));
        assert(texts(self.tool_names@) =~= before.push(self.turn_tools@[i as int]@));
        AgentAction::RunTool { index: i, name }
    }

    /// One step of the run, as `agent_step_spec` states.
    pub fn step(&mut self, event: AgentEvent) -> (a: AgentAction)
        requires
            old(self).next_tool <= old(self).turn_tools@.len(),
        ensures
            (final(self)@, action_view(a)) == agent_step_spec(old(self)@, event_view(event)),
            final(self).next_tool <= final(self).turn_tools@.len(),
    {
        if self.awaiting_recovery {
            match event {
                AgentEvent::Recovered { reply } => match reply {
                    Some(r) => {
                        self.reply = r;
                        self.finish_reason = owned("stop");
                        self.recovered = true;
                        self.awaiting_recovery = false;
                        if self.done {
                            AgentAction::Finish
                        } else {
                            AgentAction::CheckSteering
                        }
                    },
                    None => {
                        if self.streaming {
                            self.fail()
                        } else {
                            self.awaiting_recovery = false;
                            AgentAction::Finish
                        }
                    },
                },
                _ => AgentAction::Ignore,
            }
        } else if self.done {
            AgentAction::Ignore
        } else {
            match event {
                AgentEvent::NextRound { token_estimate } => {
                    if self.iterations >= self.max_iterations {
                        if self.streaming {
                            self.finish_reason = owned("max_iterations");
                        }
                        self.finish()
                    } else {
                        self.iterations = self.iterations + 1;
                        self.turn_tools = Vec::new();
                        self.next_tool = 0;
                        self.compress_requested = false;
                        assert(texts(self.turn_tools@) =~= Seq::<Seq<char>>::empty());
                        AgentAction::CallModel {
                            iteration: self.iterations,
                            compact_first: token_estimate > self.token_threshold,
                        }
                    }
                },
                AgentEvent::NoChoice => {
                    if self.streaming {
                        AgentAction::Ignore
                    } else {
                        self.finish_reason = owned("empty");
                        self.finish()
                    }
                },
                AgentEvent::ModelReplied { finish_reason, content, tool_calls } => {
                    let fr = match finish_reason {
                        Some(f) => f,
                        None => owned("stop"),
                    };
                    let no_tools = tool_calls.len() == 0;
                    if self.streaming {
                        push_str(&mut self.reply, content.as_str());
                    } else if no_tools {
                        append_reply_segment(&mut self.reply, content.as_str());
                    }
                    self.finish_reason = owned(fr.as_str());
                    self.next_tool = 0;
                    if no_tools {
                        self.turn_tools = Vec::new();
                        assert(texts(self.turn_tools@) =~= Seq::<Seq<char>>::empty());
                        if self.streaming && is_blank(self.reply.as_str()) {
                            self.awaiting_recovery = true;
                            AgentAction::Recover { finish_reason: fr }
                        } else {
                            AgentAction::CheckSteering
                        }
                    } else {
                        self.turn_tools = tool_calls;
                        self.compress_requested = false;
                        self.run_next()
                    }
                },
                AgentEvent::SteeringChecked { injected } => {
                    if self.turn_tools.len() != 0 {
                        AgentAction::Ignore
                    } else if injected {
                        AgentAction::EndRound { compact: false, todo_reminder: false }
                    } else {
                        self.finish()
                    }
                },
                AgentEvent::ToolFinished { steering } => {
                    if self.next_tool >= self.turn_tools.len() {
                        AgentAction::Ignore
                    } else {
                        let i = self.next_tool;
                        let is_compress = str_eq(self.turn_tools[i].as_str(), "compress");
                        assert(self.turn_tools@[i as int]@ == texts(self.turn_tools@)[i as int]);
                        self.compress_requested = self.compress_requested || is_compress;
                        self.next_tool = i + 1;
                        if steering {
                            AgentAction::EndRound {
                                compact: self.compress_requested,
                                todo_reminder: false,
                            }
                        } else if self.next_tool < self.turn_tools.len() {
                            self.run_next()
                        } else {
                            AgentAction::EndRound {
                                compact: self.compress_requested,
                                todo_reminder: true,
                            }
                        }
                    }
                },
                AgentEvent::Recovered { .. } => AgentAction::Ignore,
            }
        }
    }
}

} // verus!

verus! {

// ---------------------------------------------------------------------------
// The subagent's loop
// ---------------------------------------------------------------------------

/// The reply of a subagent that gave none.
pub const NO_SUMMARY: &'static str = "(no summary)";

/// The tools of a subagent: reading files, and for any type but `Explore`
/// also writing and editing them.
pub open spec fn subagent_tool_entries(agent_type: Seq<char>) -> Seq<(Seq<char>, Seq<char>)> {
    if agent_type == "Explore"@ {
        seq![("read_file"@, "Read file."@)]
    } else {
        seq![("read_file"@, "Read file."@), ("write_file"@, "Write file."@), ("edit_file"@, "Edit file."@)]
    }
}

/// The parameters of the subagent's tools, in order.
pub open spec fn subagent_tool_parameters(agent_type: Seq<char>) -> Seq<Seq<(Seq<char>, Seq<char>, bool)>> {
    let read = seq![("path"@, r#"{"type":"string"}"#@, true)];
    if agent_type == "Explore"@ {
        seq![read]
    } else {
        seq![
            read,
            seq![("path"@, r#"{"type":"string"}"#@, true), ("content"@, r#"{"type":"string"}"#@, true)],
            seq![
                ("path"@, r#"{"type":"string"}"#@, true),
                ("old_text"@, r#"{"type":"string"}"#@, true),
                ("new_text"@, r#"{"type":"string"}"#@, true),
            ],
        ]
    }
}

/// The tools a subagent of this type may use.
pub fn subagent_tools(agent_type: &str) -> (r: Vec<ToolSchema>)
    ensures
        schema_entries_of(r@) == subagent_tool_entries(agent_type@),
        schema_parameters(r@) == subagent_tool_parameters(agent_type@),
{
    let mut r: Vec<ToolSchema> = Vec::new();
    r.push(tool_schema("read_file", "Read file.", vec![tool_parameter("path", r#"{"type":"string"}"#, true)]));
    if !str_eq(agent_type, "Explore") {
        r.push(tool_schema(
            "write_file",
            "Write file.",
            vec![
                tool_parameter("path", r#"{"type":"string"}"#, true),
                tool_parameter("content", r#"{"type":"string"}"#, true),
            ],
        ));
        r.push(tool_schema(
            "edit_file",
            "Edit file.",
            vec![
                tool_parameter("path", r#"{"type":"string"}"#, true),
                tool_parameter("old_text", r#"{"type":"string"}"#, true),
                tool_parameter("new_text", r#"{"type":"string"}"#, true),
            ],
        ));
    }
    assert(schema_entries_of(r@) =~= subagent_tool_entries(agent_type@));
    assert(schema_parameters(r@) =~~= subagent_tool_parameters(agent_type@));
    r
}

/// Where a subagent's run stands.
pub struct SubagentState {
    pub max_iterations: usize,
    pub iterations: usize,
    pub reply: String,
    pub turn_tools: Vec<String>,
    pub next_tool: usize,
    pub done: bool,
}

pub struct SubagentView {
    pub max_iterations: usize,
    pub iterations: usize,
    pub reply: Seq<char>,
    pub turn_tools: Seq<Seq<char>>,
    pub next_tool: usize,
    pub done: bool,
}

impl View for SubagentState {
    type V = SubagentView;

    open spec fn view(&self) -> SubagentView {
        SubagentView {
            max_iterations: self.max_iterations,
            iterations: self.iterations,
            reply: self.reply@,
            turn_tools: texts(self.turn_tools@),
            next_tool: self.next_tool,
            done: self.done,
        }
    }
}

/// What came of the subagent's last action.
pub enum SubagentEvent {
    /// Ready for the next model round.
    NextRound,
    /// The model call failed with this error.
    ModelFailed { error: String },
    /// The model answered with no choice.
    NoChoice,
    /// The model answered: its text, if any, and the tools asked for.
    ModelReplied { content: Option<String>, tool_calls: Vec<String> },
    /// The current tool ran and its output was added.
    ToolFinished,
}

pub enum SubagentEventView {
    NextRound,
    ModelFailed { error: Seq<char> },
    NoChoice,
    ModelReplied { content: Option<Seq<char>>, tool_calls: Seq<Seq<char>> },
    ToolFinished,
}

pub open spec fn subagent_event_view(e: SubagentEvent) -> SubagentEventView {
    match e {
        SubagentEvent::NextRound => SubagentEventView::NextRound,
        SubagentEvent::ModelFailed { error } => SubagentEventView::ModelFailed { error: error@ },
        SubagentEvent::NoChoice => SubagentEventView::NoChoice,
        SubagentEvent::ModelReplied { content, tool_calls } => SubagentEventView::ModelReplied {
            content: opt_text(content),
            tool_calls: texts(tool_calls@),
        },
        SubagentEvent::ToolFinished => SubagentEventView::ToolFinished,
    }
}

/// What the subagent is to do next.
#[derive(Debug, Clone, PartialEq, Eq)]
pub enum SubagentAction {
    /// Call the model with the subagent's tools.
    CallModel { iteration: usize },
    /// Run the file tool at this position; its output goes into the
    /// conversation cut to 50 000 characters.
    RunTool { index: usize, name: String },
    /// The run is over; this is the subagent's answer.
    Finish { reply: String },
    /// The event does not fit where the run stands; nothing changes.
    Ignore,
}

pub enum SubagentActionView {
    CallModel { iteration: usize },
    RunTool { index: usize, name: Seq<char> },
    Finish { reply: Seq<char> },
    Ignore,
}

pub open spec fn subagent_action_view(a: SubagentAction) -> SubagentActionView {
    match a {
        SubagentAction::CallModel { iteration } => SubagentActionView::CallModel { iteration },
        SubagentAction::RunTool { index, name } => SubagentActionView::RunTool { index, name: name@ },
        SubagentAction::Finish { reply } => SubagentActionView::Finish { reply: reply@ },
        SubagentAction::Ignore => SubagentActionView::Ignore,
    }
}

/// The next round while rounds are left, else the run ends with the reply so far.
pub open spec fn subagent_round(s: SubagentView) -> (SubagentView, SubagentActionView) {
    if s.iterations >= s.max_iterations {
        (SubagentView { done: true, ..s }, SubagentActionView::Finish { reply: s.reply })
    } else {
        (
            SubagentView { iterations: (s.iterations + 1) as usize, turn_tools: Seq::empty(), next_tool: 0, ..s },
            SubagentActionView::CallModel { iteration: (s.iterations + 1) as usize },
        )
    }
}

/// One step of a subagent's run: each round calls the model; its text (or
/// `(no summary)`) becomes the answer so far; a reply without tools, or no
/// choice, ends the run with that answer; a failed call ends it with the
/// error; the tools asked for run in order, then the next round begins. The
/// run ends with the answer so far when the rounds are used up.
pub open spec fn subagent_step_spec(s: SubagentView, e: SubagentEventView) -> (SubagentView, SubagentActionView) {
    if s.done {
        (s, SubagentActionView::Ignore)
    } else {
        match e {
            SubagentEventView::NextRound => subagent_round(s),
            SubagentEventView::ModelFailed { error } => {
                let r = "Error: "@ + error;
                (SubagentView { reply: r, done: true, ..s }, SubagentActionView::Finish { reply: r })
            },
            SubagentEventView::NoChoice => (SubagentView { done: true, ..s }, SubagentActionView::Finish { reply: s.reply }),
            SubagentEventView::ModelReplied { content, tool_calls } => {
                let r = match content {
                    Some(c) => c,
                    None => NO_SUMMARY@,
                };
                if tool_calls.len() == 0 {
                    (SubagentView { reply: r, done: true, ..s }, SubagentActionView::Finish { reply: r })
                } else {
                    (
                        SubagentView { reply: r, turn_tools: tool_calls, next_tool: 0, ..s },
                        SubagentActionView::RunTool { index: 0, name: tool_calls[0] },
                    )
                }
            },
            SubagentEventView::ToolFinished => if s.next_tool >= s.turn_tools.len() {
                (s, SubagentActionView::Ignore)
            } else {
                let t = SubagentView { next_tool: (s.next_tool + 1) as usize, ..s };
                if t.next_tool < t.turn_tools.len() {
                    (t, SubagentActionView::RunTool { index: t.next_tool, name: t.turn_tools[t.next_tool as int] })
                } else {
                    subagent_round(t)
                }
            },
        }
    }
}

impl SubagentState {
    /// A subagent run of at most `max_iterations` rounds.
    pub fn new(max_iterations: usize) -> (s: Self)
        ensures
            s@ == (SubagentView {
                max_iterations,
                iterations: 0,
                reply: NO_SUMMARY@,
                turn_tools: Seq::empty(),
                next_tool: 0,
                done: false,
            }),
    {
        let s = SubagentState {
            max_iterations,
            iterations: 0,
            reply: owned(NO_SUMMARY),
            turn_tools: Vec::new(),
            next_tool: 0,
            done: false,
        };
        assert(texts(s.turn_tools@) =~= Seq::<Seq<char>>::empty());
        s
    }

    fn round(&mut self) -> (a: SubagentAction)
        ensures
            (final(self)@, subagent_action_view(a)) == subagent_round(old(self)@),
    {
        if self.iterations >= self.max_iterations {
            self.done = true;
            SubagentAction::Finish { reply: owned(self.reply.as_str()) }
        } else {
            self.iterations = self.iterations + 1;
            self.turn_tools = Vec::new();
            self.next_tool = 0;
            assert(texts(self.turn_tools@) =~= Seq::<Seq<char>>::empty());
            SubagentAction::CallModel { iteration: self.iterations }
        }
    }

    /// One step of the run, as `subagent_step_spec` states.
    pub fn step(&mut self, event: SubagentEvent) -> (a: SubagentAction)
        ensures
            (final(self)@, subagent_action_view(a)) == subagent_step_spec(
                old(self)@,
                subagent_event_view(event),
            ),
    {
        if self.done {
            return SubagentAction::Ignore;
        }
        match event {
            SubagentEvent::NextRound => self.round(),
            SubagentEvent::ModelFailed { error } => {
                let r = concat2("Error: ", error.as_str());
                self.reply = owned(r.as_str());
                self.done = true;
                SubagentAction::Finish { reply: r }
            },
            SubagentEvent::NoChoice => {
                self.done = true;
                SubagentAction::Finish { reply: owned(self.reply.as_str()) }
            },
            SubagentEvent::ModelReplied { content, tool_calls } => {
                self.reply = match content {
                    Some(c) => c,
                    None => owned(NO_SUMMARY),
                };
                if tool_calls.len() == 0 {
                    self.done = true;
                    SubagentAction::Finish { reply: owned(self.reply.as_str()) }
                } else {
                    let name = owned(tool_calls[0].as_str());
                    self.turn_tools = tool_calls;
                    self.next_tool = 0;
                    SubagentAction::RunTool { index: 0, name }
                }
            },
            SubagentEvent::ToolFinished => {
                if self.next_tool >= self.turn_tools.len() {
                    SubagentAction::Ignore
                } else {
                    self.next_tool = self.next_tool + 1;
                    if self.next_tool < self.turn_tools.len() {
                        let name = owned(self.turn_tools[self.next_tool].as_str());
                        SubagentAction::RunTool { index: self.next_tool, name }
                    } else {
                        self.round()
                    }
                }
            },
        }
    }
}

} // verus!

verus! {

/// A run never takes more model rounds than it may: every step keeps the
/// rounds begun within the budget, and a model call is only asked for while
/// rounds are left.
pub proof fn lemma_agent_round_budget(s: AgentRunView, e: AgentEventView)
    requires
        s.iterations <= s.max_iterations,
    ensures
        agent_step_spec(s, e).0.iterations <= s.max_iterations,
        agent_step_spec(s, e).0.max_iterations == s.max_iterations,
        agent_step_spec(s, e).1 matches AgentActionView::CallModel { iteration, .. } ==> iteration
            <= s.max_iterations && iteration == s.iterations + 1,
{
}

/// A finished run stays finished: once over, nothing but the one recovery
/// answer changes it.
pub proof fn lemma_agent_done_stays(s: AgentRunView, e: AgentEventView)
    requires
        s.done,
    ensures
        agent_step_spec(s, e).0.done,
        agent_step_spec(s, e).0.iterations == s.iterations,
        agent_step_spec(s, e).0.tool_names == s.tool_names,
{
}

/// A stream never finishes without a visible reply: it either shows text
/// (its own or the recovery's visible answer) or ends with its error.
pub proof fn lemma_stream_finishes_visible(s: AgentRunView, e: AgentEventView)
    requires
        s.streaming,
        e matches AgentEventView::Recovered { reply: Some(r) } ==> trim_seq(r).len() > 0,
    ensures
        agent_step_spec(s, e).1 is Finish ==> trim_seq(agent_step_spec(s, e).0.reply).len() > 0,
{
}

/// A subagent never takes more model rounds than it may.
pub proof fn lemma_subagent_round_budget(s: SubagentView, e: SubagentEventView)
    requires
        s.iterations <= s.max_iterations,
    ensures
        subagent_step_spec(s, e).0.iterations <= s.max_iterations,
        subagent_step_spec(s, e).0.max_iterations == s.max_iterations,
{
}

} // verus!
