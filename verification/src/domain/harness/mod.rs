pub mod apply;
pub mod approval;
pub mod decision;
pub mod draft;
pub mod flow;
pub mod signals;
pub mod snapshot;
pub mod records;
pub mod trace;

use vstd::prelude::*;

use crate::domain::chat::tool_schema::ToolSchema;

use crate::order::{entries_map, entry_value, pair_views};
use crate::text::{
    concat2, is_empty_text, join_path, join_path_seq, lower_seq, owned, push_str, replace_all,
    replace_seq, str_eq, to_ascii_lowercase, trim, trim_seq,
};

verus! {

pub const SYSTEM_BASE_PATH: &'static str = "harness/system/base.md";

pub const SUBAGENT_SHARED_PATH: &'static str = "harness/subagents/shared.md";

pub const SUBAGENT_EXPLORE_PATH: &'static str = "harness/subagents/explore.md";

pub const SUBAGENT_GENERAL_PATH: &'static str = "harness/subagents/general-purpose.md";

pub const FINAL_ANSWER_RECOVERY_PATH: &'static str = "harness/middleware/final-answer-recovery.md";

pub const MEMORY_MAINTENANCE_SYSTEM_PATH: &'static str = "harness/memory/maintenance_system.md";

pub const MEMORY_MAINTENANCE_USER_TEMPLATE_PATH: &'static str =
    "harness/memory/maintenance_user_template.md";

pub const SKILL_LEARNING_SYSTEM_PATH: &'static str = "harness/skills/learning_system.md";

pub const SKILL_LEARNING_USER_TEMPLATE_PATH: &'static str =
    "harness/skills/learning_user_template.md";

pub const TOOL_DESCRIPTIONS_PATH: &'static str = "harness/tools/descriptions.json";

pub const MIDDLEWARE_MESSAGES_PATH: &'static str = "harness/middleware/messages.json";

pub const DEFAULT_SYSTEM_BASE_TEMPLATE: &'static str = "You are a coding agent at {repo_root}. Use task + worktree tools for multi-task work. MCP tools (prefixed with mcp_) may be available when the MCP server is reachable. IMPORTANT: All user-downloadable generated files (.docx/.xlsx/.csv/.md) must be written under /app/outputs/ inside the container. In this workspace that maps to {outputs_dir}. Do not place downloadable deliverables in uploads, memory files, or other directories.";

pub const DEFAULT_SUBAGENT_SHARED_PROMPT: &'static str = "You are an isolated subagent. You do not inherit the parent agent's conversation history, session state, memory files, or loaded skills unless they are explicitly included in the task prompt or tool outputs.";

pub const DEFAULT_SUBAGENT_EXPLORE_PROMPT: &'static str = "Stay read-only. Inspect relevant files carefully and return a grounded summary with concrete paths and concise evidence. Do not propose changes you did not inspect.";

pub const DEFAULT_SUBAGENT_GENERAL_PROMPT: &'static str = "You may use read_file, write_file, and edit_file when needed. Keep edits minimal and reversible, and summarize exactly what changed.";

pub const DEFAULT_FINAL_ANSWER_RECOVERY_TEMPLATE: &'static str = "<final-answer-required>\nThe previous assistant attempt ended without any user-visible answer (finish_reason: {finish_reason}). Based only on the conversation and tool results already available, provide the best possible final answer now. Do not call tools. If something remains incomplete, explain that clearly.\n</final-answer-required>";

pub const DEFAULT_BACKGROUND_RESULTS_ACK: &'static str = "Noted background results.";

pub const DEFAULT_INBOX_ACK: &'static str = "Noted inbox messages.";

pub const DEFAULT_STEERING_ACK: &'static str =
    "Noted steering update. Re-evaluating before running more tools.";

pub const DEFAULT_TODO_REMINDER_USER: &'static str = "<reminder>Update your todos.</reminder>";

pub const DEFAULT_TODO_REMINDER_ACK: &'static str = "Noted, will update todos.";

/// Where a prompt came from.
#[derive(Debug, Clone, Copy, PartialEq, Eq, Structural)]
pub enum PromptSourceKind {
    Builtin,
    File,
    Request,
    Unset,
}

/// Where a prompt came from, with the file's path relative to the repository
/// when it came from a file.
#[derive(Debug, Clone, PartialEq, Eq)]
pub struct PromptSource {
    pub kind: PromptSourceKind,
    pub path: Option<String>,
}

impl PromptSource {
    /// The source of a prompt that the request gave.
    pub open spec fn request_spec() -> PromptSource {
        PromptSource { kind: PromptSourceKind::Request, path: None }
    }

    /// The source of a prompt that was not given.
    pub open spec fn none_spec() -> PromptSource {
        PromptSource { kind: PromptSourceKind::Unset, path: None }
    }

    pub fn builtin() -> (s: Self)
        ensures
            s.kind == PromptSourceKind::Builtin,
            s.path is None,
    {
        PromptSource { kind: PromptSourceKind::Builtin, path: None }
    }

    pub fn file(relative_path: &str) -> (s: Self)
        ensures
            s.kind == PromptSourceKind::File,
            s.path matches Some(p) && p@ == relative_path@,
    {
        PromptSource { kind: PromptSourceKind::File, path: Some(owned(relative_path)) }
    }

    pub fn request() -> (s: Self)
        ensures
            s.kind == PromptSourceKind::Request,
            s.path is None,
    {
        PromptSource { kind: PromptSourceKind::Request, path: None }
    }

    pub fn none() -> (s: Self)
        ensures
            s.kind == PromptSourceKind::Unset,
            s.path is None,
    {
        PromptSource { kind: PromptSourceKind::Unset, path: None }
    }

    /// A copy of the source.
    pub fn duplicate(&self) -> (s: Self)
        ensures
            s == *self,
    {
        PromptSource {
            kind: self.kind,
            path: match &self.path {
                Some(p) => Some(p.clone()),
                None => None,
            },
        }
    }
}

/// A prompt file's source given whether the file exists under the repository:
/// the file when it does, the built-in text otherwise.
pub fn resolve_repo_prompt_source(relative_path: &str, file_exists: bool) -> (s: PromptSource)
    ensures
        file_exists ==> s.kind == PromptSourceKind::File && (s.path matches Some(p) && p@
            == relative_path@),
        !file_exists ==> s.kind == PromptSourceKind::Builtin && s.path is None,
{
    if file_exists {
        PromptSource::file(relative_path)
    } else {
        PromptSource::builtin()
    }
}

/// A prompt text and where it came from.
#[derive(Debug, Clone)]
pub struct PromptAsset {
    pub content: String,
    pub source: PromptSource,
}

/// The short messages that the agent loop injects.
#[derive(Debug, Clone)]
pub struct MiddlewareMessages {
    pub background_results_ack: String,
    pub inbox_ack: String,
    pub steering_ack: String,
    pub todo_reminder_user: String,
    pub todo_reminder_ack: String,
}

impl Default for MiddlewareMessages {
    fn default() -> (m: Self)
        ensures
            m.background_results_ack@ == DEFAULT_BACKGROUND_RESULTS_ACK@,
            m.inbox_ack@ == DEFAULT_INBOX_ACK@,
            m.steering_ack@ == DEFAULT_STEERING_ACK@,
            m.todo_reminder_user@ == DEFAULT_TODO_REMINDER_USER@,
            m.todo_reminder_ack@ == DEFAULT_TODO_REMINDER_ACK@,
    {
        MiddlewareMessages {
            background_results_ack: owned(DEFAULT_BACKGROUND_RESULTS_ACK),
            inbox_ack: owned(DEFAULT_INBOX_ACK),
            steering_ack: owned(DEFAULT_STEERING_ACK),
            todo_reminder_user: owned(DEFAULT_TODO_REMINDER_USER),
            todo_reminder_ack: owned(DEFAULT_TODO_REMINDER_ACK),
        }
    }
}

/// The fields of a middleware message file, each optional.
#[derive(Debug, Clone, Default)]
pub struct MiddlewareMessagesOverride {
    pub background_results_ack: Option<String>,
    pub inbox_ack: Option<String>,
    pub steering_ack: Option<String>,
    pub todo_reminder_user: Option<String>,
    pub todo_reminder_ack: Option<String>,
}

/// What the harness files under a repository hold, as read from disk: each
/// prompt file's text where the file exists, the parsed tool description file
/// and the parsed middleware message file where they exist.
#[derive(Debug, Clone, Default)]
pub struct HarnessFiles {
    pub system_base: Option<String>,
    pub subagent_shared: Option<String>,
    pub subagent_explore: Option<String>,
    pub subagent_general: Option<String>,
    pub final_answer_recovery: Option<String>,
    pub tool_descriptions: Option<Vec<(String, String)>>,
    pub middleware_messages: Option<MiddlewareMessagesOverride>,
}

/// A harness file that exists but holds only white space.
#[derive(Debug, Clone, PartialEq, Eq)]
pub struct EmptyHarnessPrompt {
    pub relative_path: String,
}

impl EmptyHarnessPrompt {
    /// The message, naming the file by its path under `repo_root`.
    pub fn message(&self, repo_root: &str) -> (m: String)
        ensures
            m@ == "harness prompt "@ + join_path_seq(repo_root@, self.relative_path@)
                + " is empty"@,
    {
        let path = join_path(repo_root, self.relative_path.as_str());
        let mut m = concat2("harness prompt ", path.as_str());
        push_str(&mut m, " is empty");
        m
    }
}

/// The value with its white space trimmed, unless that leaves it blank.
pub open spec fn non_empty_trimmed_spec(value: Option<Seq<char>>) -> Option<Seq<char>> {
    match value {
        Some(v) => if trim_seq(v).len() > 0 {
            Some(trim_seq(v))
        } else {
            None
        },
        None => None,
    }
}

pub fn non_empty_trimmed(value: Option<String>) -> (r: Option<String>)
    ensures
        (match r {
            Some(s) => Some(s@),
            None => None,
        }) == non_empty_trimmed_spec(
            match value {
                Some(v) => Some(v@),
                None => None,
            },
        ),
{
    match value {
        Some(v) => {
            let t = trim(v.as_str());
            if is_empty_text(t.as_str()) {
                None
            } else {
                Some(t)
            }
        },
        None => None,
    }
}

/// A prompt asset from a file that may be absent: the built-in fallback when it
/// is, the file's text when it holds more than white space, an error otherwise.
pub fn read_optional_prompt(content: Option<String>, relative_path: &str, fallback: &str) -> (r:
    Result<PromptAsset, EmptyHarnessPrompt>)
    ensures
        match content {
            None => r matches Ok(a) && a.content@ == fallback@ && a.source.kind
                == PromptSourceKind::Builtin,
            Some(c) => if trim_seq(c@).len() == 0 {
                r matches Err(e) && e.relative_path@ == relative_path@
            } else {
                r matches Ok(a) && a.content@ == c@ && a.source.kind == PromptSourceKind::File && (
                a.source.path matches Some(p) && p@ == relative_path@)
            },
        },
{
    match content {
        None => Ok(PromptAsset { content: owned(fallback), source: PromptSource::builtin() }),
        Some(c) => {
            let t = trim(c.as_str());
            if is_empty_text(t.as_str()) {
                Err(EmptyHarnessPrompt { relative_path: owned(relative_path) })
            } else {
                Ok(PromptAsset { content: c, source: PromptSource::file(relative_path) })
            }
        },
    }
}

/// The tool description entries trimmed; entries with a blank name or text
/// dropped; a later entry for a name replaces the earlier one in place.
pub open spec fn tool_description_entries(es: Seq<(Seq<char>, Seq<char>)>) -> Seq<
    (Seq<char>, Seq<char>),
>
    decreases es.len(),
{
    if es.len() == 0 {
        Seq::empty()
    } else {
        let prev = tool_description_entries(es.drop_last());
        let k = trim_seq(es.last().0);
        let v = trim_seq(es.last().1);
        if k.len() == 0 || v.len() == 0 {
            prev
        } else if exists|i: int| 0 <= i < prev.len() && prev[i].0 == k {
            let i = choose|i: int| 0 <= i < prev.len() && prev[i].0 == k;
            prev.update(i, (k, v))
        } else {
            prev.push((k, v))
        }
    }
}

pub open spec fn entry_texts(v: Seq<(String, String)>) -> Seq<(Seq<char>, Seq<char>)> {
    v.map_values(|e: (String, String)| (e.0@, e.1@))
}

/// No two entries have the same name.
pub open spec fn distinct_names(es: Seq<(Seq<char>, Seq<char>)>) -> bool {
    forall|i: int, j: int| 0 <= i < j < es.len() ==> es[i].0 != es[j].0
}

proof fn lemma_tool_description_entries_distinct(es: Seq<(Seq<char>, Seq<char>)>)
    ensures
        distinct_names(tool_description_entries(es)),
    decreases es.len(),
{
    if es.len() > 0 {
        lemma_tool_description_entries_distinct(es.drop_last());
    }
}

fn find_entry(entries: &Vec<(String, String)>, key: &str) -> (r: Option<usize>)
    ensures
        match r {
            Some(i) => i < entries@.len() && entry_texts(entries@)[i as int].0 == key@,
            None => forall|i: int|
                0 <= i < entries@.len() ==> entry_texts(entries@)[i].0 != key@,
        },
{
    let mut i: usize = 0;
    while i < entries.len()
        invariant
            0 <= i <= entries.len(),
            forall|j: int| 0 <= j < i ==> entry_texts(entries@)[j].0 != key@,
        decreases entries.len() - i,
    {
        if str_eq(entries[i].0.as_str(), key) {
            return Some(i);
        }
        i += 1;
    }
    None
}

/// Normalizes the entries of a tool description file.
pub fn normalize_tool_descriptions(parsed: Vec<(String, String)>) -> (r: Vec<(String, String)>)
    ensures
        entry_texts(r@) == tool_description_entries(entry_texts(parsed@)),
{
    let ghost es = entry_texts(parsed@);
    let mut out: Vec<(String, String)> = Vec::new();
    let mut i: usize = 0;
    while i < parsed.len()
        invariant
            0 <= i <= parsed.len(),
            es == entry_texts(parsed@),
            entry_texts(out@) == tool_description_entries(es.take(i as int)),
        decreases parsed.len() - i,
    {
        let k = trim(parsed[i].0.as_str());
        let v = trim(parsed[i].1.as_str());
        proof {
            assert(es.take(i + 1).drop_last() =~= es.take(i as int));
            assert(es.take(i + 1).last() == es[i as int]);
            lemma_tool_description_entries_distinct(es.take(i as int));
        }
        if is_empty_text(k.as_str()) || is_empty_text(v.as_str()) {
        } else {
            match find_entry(&out, k.as_str()) {
                Some(j) => {
                    let ghost prev = entry_texts(out@);
                    let ghost kv = (k@, v@);
                    out.set(j, (k, v));
                    proof {
                        let c = choose|c: int| 0 <= c < prev.len() && prev[c].0 == kv.0;
                        assert(c == j);
                        assert(entry_texts(out@) =~= prev.update(j as int, kv));
                    }
                },
                None => {
                    let ghost prev = entry_texts(out@);
                    let ghost kv = (k@, v@);
                    out.push((k, v));
                    assert(entry_texts(out@) =~= prev.push(kv));
                },
            }
        }
        i += 1;
    }
    assert(es.take(parsed.len() as int) =~= es);
    out
}

fn override_or(value: Option<String>, default: String) -> (r: String)
    ensures
        r@ == match non_empty_trimmed_spec(
            match value {
                Some(v) => Some(v@),
                None => None,
            },
        ) {
            Some(t) => t,
            None => default@,
        },
{
    match non_empty_trimmed(value) {
        Some(t) => t,
        None => default,
    }
}

pub open spec fn ov(o: Option<String>) -> Option<Seq<char>> {
    match o {
        Some(v) => Some(v@),
        None => None,
    }
}

pub open spec fn overridden(o: Option<String>, default: Seq<char>) -> Seq<char> {
    match non_empty_trimmed_spec(ov(o)) {
        Some(t) => t,
        None => default,
    }
}

/// The middleware messages with the non-blank overrides of a message file applied.
pub fn apply_middleware_overrides(overrides: MiddlewareMessagesOverride) -> (m: MiddlewareMessages)
    ensures
        m.background_results_ack@ == overridden(
            overrides.background_results_ack,
            DEFAULT_BACKGROUND_RESULTS_ACK@,
        ),
        m.inbox_ack@ == overridden(overrides.inbox_ack, DEFAULT_INBOX_ACK@),
        m.steering_ack@ == overridden(overrides.steering_ack, DEFAULT_STEERING_ACK@),
        m.todo_reminder_user@ == overridden(
            overrides.todo_reminder_user,
            DEFAULT_TODO_REMINDER_USER@,
        ),
        m.todo_reminder_ack@ == overridden(overrides.todo_reminder_ack, DEFAULT_TODO_REMINDER_ACK@),
{
    let d = MiddlewareMessages::default();
    MiddlewareMessages {
        background_results_ack: override_or(
            overrides.background_results_ack,
            d.background_results_ack,
        ),
        inbox_ack: override_or(overrides.inbox_ack, d.inbox_ack),
        steering_ack: override_or(overrides.steering_ack, d.steering_ack),
        todo_reminder_user: override_or(overrides.todo_reminder_user, d.todo_reminder_user),
        todo_reminder_ack: override_or(overrides.todo_reminder_ack, d.todo_reminder_ack),
    }
}

/// The prompts, tool descriptions and middleware messages that shape the agent.
#[derive(Debug, Clone)]
pub struct HarnessAssets {
    pub system_base_template: PromptAsset,
    pub subagent_shared_prompt: PromptAsset,
    pub subagent_explore_prompt: PromptAsset,
    pub subagent_general_prompt: PromptAsset,
    pub final_answer_recovery_template: PromptAsset,
    pub tool_descriptions: Vec<(String, String)>,
    pub tool_descriptions_source: PromptSource,
    pub middleware_messages: MiddlewareMessages,
    pub middleware_messages_source: PromptSource,
}

/// `template` with `{key}` replaced by `value` for each pair, in order.
pub open spec fn rendered_template(template: Seq<char>, pairs: Seq<(Seq<char>, Seq<char>)>) -> Seq<
    char,
>
    decreases pairs.len(),
{
    if pairs.len() == 0 {
        template
    } else {
        let prev = rendered_template(template, pairs.drop_last());
        replace_seq(prev, "{"@ + pairs.last().0 + "}"@, pairs.last().1)
    }
}

/// Replaces each `{key}` placeholder of `template` by its value, pair by pair.
pub fn render_template(template: &str, replacements: &Vec<(&str, String)>) -> (r: String)
    ensures
        r@ == rendered_template(template@, replacements@.map_values(|p: (&str, String)| (p.0@, p.1@))),
{
    let ghost pairs = replacements@.map_values(|p: (&str, String)| (p.0@, p.1@));
    let mut rendered = owned(template);
    let mut i: usize = 0;
    proof {
        reveal_strlit("{");
        reveal_strlit("}");
    }
    while i < replacements.len()
        invariant
            0 <= i <= replacements.len(),
            pairs == replacements@.map_values(|p: (&str, String)| (p.0@, p.1@)),
            rendered@ == rendered_template(template@, pairs.take(i as int)),
            "{"@.len() == 1,
        decreases replacements.len() - i,
    {
        let key = concat2("{", replacements[i].0);
        let key = concat2(key.as_str(), "}");
        rendered = replace_all(rendered.as_str(), key.as_str(), replacements[i].1.as_str());
        assert(pairs.take(i + 1).drop_last() =~= pairs.take(i as int));
        assert(pairs.take(i + 1).last() == pairs[i as int]);
        i += 1;
    }
    assert(pairs.take(replacements.len() as int) =~= pairs);
    rendered
}

pub open spec fn role_guidance(shared: Seq<char>, role: Seq<char>) -> Seq<char> {
    if trim_seq(role).len() == 0 {
        trim_seq(shared)
    } else {
        trim_seq(shared) + "\n\n<role_specific_guidance>\n"@ + trim_seq(role)
            + "\n</role_specific_guidance>"@
    }
}

/// A prompt file that exists but holds only white space.
pub open spec fn blank_prompt(content: Option<String>) -> bool {
    content matches Some(c) && trim_seq(c@).len() == 0
}

/// Where a prompt came from: its file, at `path`, when the file exists; the
/// built-in default otherwise.
pub open spec fn prompt_source_of(content: Option<String>, source: PromptSource, path: Seq<char>) -> bool {
    match content {
        Some(_) => source.kind == PromptSourceKind::File && (source.path matches Some(p) && p@ == path),
        None => source.kind == PromptSourceKind::Builtin,
    }
}

/// The path of the first blank prompt file, in the order the files are read:
/// the base system prompt, the shared, explore and general subagent prompts,
/// and the final answer recovery prompt.
pub open spec fn first_blank_prompt(files: HarnessFiles) -> Option<Seq<char>> {
    if blank_prompt(files.system_base) {
        Some(SYSTEM_BASE_PATH@)
    } else if blank_prompt(files.subagent_shared) {
        Some(SUBAGENT_SHARED_PATH@)
    } else if blank_prompt(files.subagent_explore) {
        Some(SUBAGENT_EXPLORE_PATH@)
    } else if blank_prompt(files.subagent_general) {
        Some(SUBAGENT_GENERAL_PATH@)
    } else if blank_prompt(files.final_answer_recovery) {
        Some(FINAL_ANSWER_RECOVERY_PATH@)
    } else {
        None
    }
}

impl HarnessAssets {
    /// Builds the assets from the harness files of a repository; an existing
    /// prompt file that is blank is refused, naming the first such file.
    pub fn load(files: HarnessFiles) -> (r: Result<Self, EmptyHarnessPrompt>)
        ensures
            match first_blank_prompt(files) {
                Some(path) => (r matches Err(e) && e.relative_path@ == path),
                None => r is Ok,
            },
            r matches Ok(h) ==> {
                &&& (files.subagent_shared matches Some(c) ==> h.subagent_shared_prompt.content@
                    == c@)
                &&& (files.subagent_explore matches Some(c) ==> h.subagent_explore_prompt.content@
                    == c@)
                &&& (files.subagent_general matches Some(c) ==> h.subagent_general_prompt.content@
                    == c@)
                &&& prompt_source_of(files.system_base, h.system_base_template.source, SYSTEM_BASE_PATH@)
                &&& prompt_source_of(files.subagent_shared, h.subagent_shared_prompt.source, SUBAGENT_SHARED_PATH@)
                &&& prompt_source_of(files.subagent_explore, h.subagent_explore_prompt.source, SUBAGENT_EXPLORE_PATH@)
                &&& prompt_source_of(files.subagent_general, h.subagent_general_prompt.source, SUBAGENT_GENERAL_PATH@)
                &&& prompt_source_of(
                    files.final_answer_recovery,
                    h.final_answer_recovery_template.source,
                    FINAL_ANSWER_RECOVERY_PATH@,
                )
            },
            r matches Ok(h) ==> {
                &&& (files.system_base matches Some(c) ==> h.system_base_template.content@ == c@)
                &&& (files.system_base is None ==> h.system_base_template.content@
                    == DEFAULT_SYSTEM_BASE_TEMPLATE@)
                &&& (files.final_answer_recovery matches Some(c)
                    ==> h.final_answer_recovery_template.content@ == c@)
                &&& (files.final_answer_recovery is None
                    ==> h.final_answer_recovery_template.content@
                    == DEFAULT_FINAL_ANSWER_RECOVERY_TEMPLATE@)
                &&& (files.subagent_shared is None ==> h.subagent_shared_prompt.content@
                    == DEFAULT_SUBAGENT_SHARED_PROMPT@)
                &&& (files.subagent_explore is None ==> h.subagent_explore_prompt.content@
                    == DEFAULT_SUBAGENT_EXPLORE_PROMPT@)
                &&& (files.subagent_general is None ==> h.subagent_general_prompt.content@
                    == DEFAULT_SUBAGENT_GENERAL_PROMPT@)
                &&& (files.tool_descriptions matches Some(t) ==> entry_texts(h.tool_descriptions@)
                    == tool_description_entries(entry_texts(t@))
                    && h.tool_descriptions_source.kind == PromptSourceKind::File)
                &&& (files.tool_descriptions is None ==> h.tool_descriptions@.len() == 0
                    && h.tool_descriptions_source.kind == PromptSourceKind::Unset)
                &&& (files.middleware_messages matches Some(o) ==> h.middleware_messages.steering_ack@
                    == overridden(o.steering_ack, DEFAULT_STEERING_ACK@)
                    && h.middleware_messages.inbox_ack@ == overridden(o.inbox_ack, DEFAULT_INBOX_ACK@)
                    && h.middleware_messages.background_results_ack@ == overridden(
                    o.background_results_ack,
                    DEFAULT_BACKGROUND_RESULTS_ACK@,
                ) && h.middleware_messages.todo_reminder_user@ == overridden(
                    o.todo_reminder_user,
                    DEFAULT_TODO_REMINDER_USER@,
                ) && h.middleware_messages.todo_reminder_ack@ == overridden(
                    o.todo_reminder_ack,
                    DEFAULT_TODO_REMINDER_ACK@,
                ) && h.middleware_messages_source.kind == PromptSourceKind::File)
                &&& (files.middleware_messages is None
                    ==> h.middleware_messages_source.kind == PromptSourceKind::Builtin
                    && h.middleware_messages.steering_ack@ == DEFAULT_STEERING_ACK@)
            },
            files.system_base matches Some(c) && trim_seq(c@).len() == 0 ==> r is Err,
            files.final_answer_recovery matches Some(c) && trim_seq(c@).len() == 0 ==> r is Err,
    {
        let (tool_descriptions, tool_descriptions_source) = match files.tool_descriptions {
            Some(parsed) => (
                normalize_tool_descriptions(parsed),
                PromptSource::file(TOOL_DESCRIPTIONS_PATH),
            ),
            None => (Vec::new(), PromptSource::none()),
        };
        let (middleware_messages, middleware_messages_source) = match files.middleware_messages {
            Some(o) => (apply_middleware_overrides(o), PromptSource::file(MIDDLEWARE_MESSAGES_PATH)),
            None => (MiddlewareMessages::default(), PromptSource::builtin()),
        };
        let system_base_template = read_optional_prompt(
            files.system_base,
            SYSTEM_BASE_PATH,
            DEFAULT_SYSTEM_BASE_TEMPLATE,
        )?;
        let subagent_shared_prompt = read_optional_prompt(
            files.subagent_shared,
            SUBAGENT_SHARED_PATH,
            DEFAULT_SUBAGENT_SHARED_PROMPT,
        )?;
        let subagent_explore_prompt = read_optional_prompt(
            files.subagent_explore,
            SUBAGENT_EXPLORE_PATH,
            DEFAULT_SUBAGENT_EXPLORE_PROMPT,
        )?;
        let subagent_general_prompt = read_optional_prompt(
            files.subagent_general,
            SUBAGENT_GENERAL_PATH,
            DEFAULT_SUBAGENT_GENERAL_PROMPT,
        )?;
        let final_answer_recovery_template = read_optional_prompt(
            files.final_answer_recovery,
            FINAL_ANSWER_RECOVERY_PATH,
            DEFAULT_FINAL_ANSWER_RECOVERY_TEMPLATE,
        )?;
        Ok(
            HarnessAssets {
                system_base_template,
                subagent_shared_prompt,
                subagent_explore_prompt,
                subagent_general_prompt,
                final_answer_recovery_template,
                tool_descriptions,
                tool_descriptions_source,
                middleware_messages,
                middleware_messages_source,
            },
        )
    }

    /// The base system prompt with `{repo_root}` and `{outputs_dir}` filled in.
    pub fn render_system_base(&self, repo_root: &str) -> (r: String)
        ensures
            r@ == rendered_template(
                self.system_base_template.content@,
                seq![("repo_root"@, repo_root@), ("outputs_dir"@, join_path_seq(repo_root@, "outputs"@))],
            ),
    {
        let outputs = join_path(repo_root, "outputs");
        let mut pairs: Vec<(&str, String)> = Vec::new();
        pairs.push(("repo_root", owned(repo_root)));
        pairs.push(("outputs_dir", outputs));
        let r = render_template(self.system_base_template.content.as_str(), &pairs);
        assert(pairs@.map_values(|p: (&str, String)| (p.0@, p.1@)) =~= seq![
            ("repo_root"@, repo_root@),
            ("outputs_dir"@, join_path_seq(repo_root@, "outputs"@)),
        ]);
        r
    }

    /// The system prompt of a subagent: the shared guidance, followed by the
    /// guidance for its role (`explore`, in any case, or general purpose).
    pub fn render_subagent_system(&self, agent_type: &str) -> (r: String)
        ensures
            r@ == role_guidance(
                self.subagent_shared_prompt.content@,
                if lower_seq(agent_type@) == "explore"@ {
                    self.subagent_explore_prompt.content@
                } else {
                    self.subagent_general_prompt.content@
                },
            ),
    {
        let lowered = to_ascii_lowercase(agent_type);
        let role_specific = if str_eq(lowered.as_str(), "explore") {
            trim(self.subagent_explore_prompt.content.as_str())
        } else {
            trim(self.subagent_general_prompt.content.as_str())
        };
        let shared = trim(self.subagent_shared_prompt.content.as_str());
        if is_empty_text(role_specific.as_str()) {
            return shared;
        }
        let mut r = concat2(shared.as_str(), "\n\n<role_specific_guidance>\n");
        push_str(&mut r, role_specific.as_str());
        push_str(&mut r, "\n</role_specific_guidance>");
        r
    }

    /// The recovery prompt with `{finish_reason}` filled in.
    pub fn render_final_answer_recovery(&self, finish_reason: &str) -> (r: String)
        ensures
            r@ == rendered_template(
                self.final_answer_recovery_template.content@,
                seq![("finish_reason"@, finish_reason@)],
            ),
    {
        let mut pairs: Vec<(&str, String)> = Vec::new();
        pairs.push(("finish_reason", owned(finish_reason)));
        assert(pairs@.map_values(|p: (&str, String)| (p.0@, p.1@)) =~= seq![
            ("finish_reason"@, finish_reason@),
        ]);
        render_template(self.final_answer_recovery_template.content.as_str(), &pairs)
    }

    pub fn system_base_source(&self) -> (s: &PromptSource)
        ensures
            *s == self.system_base_template.source,
    {
        &self.system_base_template.source
    }

    pub fn subagent_shared_source(&self) -> (s: &PromptSource)
        ensures
            *s == self.subagent_shared_prompt.source,
    {
        &self.subagent_shared_prompt.source
    }

    pub fn subagent_explore_source(&self) -> (s: &PromptSource)
        ensures
            *s == self.subagent_explore_prompt.source,
    {
        &self.subagent_explore_prompt.source
    }

    pub fn subagent_general_source(&self) -> (s: &PromptSource)
        ensures
            *s == self.subagent_general_prompt.source,
    {
        &self.subagent_general_prompt.source
    }

    pub fn final_answer_recovery_source(&self) -> (s: &PromptSource)
        ensures
            *s == self.final_answer_recovery_template.source,
    {
        &self.final_answer_recovery_template.source
    }

    pub fn background_results_ack(&self) -> (s: String)
        ensures
            s@ == trim_seq(self.middleware_messages.background_results_ack@),
    {
        trim(self.middleware_messages.background_results_ack.as_str())
    }

    pub fn inbox_ack(&self) -> (s: String)
        ensures
            s@ == trim_seq(self.middleware_messages.inbox_ack@),
    {
        trim(self.middleware_messages.inbox_ack.as_str())
    }

    pub fn steering_ack(&self) -> (s: String)
        ensures
            s@ == trim_seq(self.middleware_messages.steering_ack@),
    {
        trim(self.middleware_messages.steering_ack.as_str())
    }

    pub fn todo_reminder_user(&self) -> (s: String)
        ensures
            s@ == trim_seq(self.middleware_messages.todo_reminder_user@),
    {
        trim(self.middleware_messages.todo_reminder_user.as_str())
    }

    pub fn todo_reminder_ack(&self) -> (s: String)
        ensures
            s@ == trim_seq(self.middleware_messages.todo_reminder_ack@),
    {
        trim(self.middleware_messages.todo_reminder_ack.as_str())
    }

    pub fn system_base_template(&self) -> (s: &str)
        ensures
            s@ == self.system_base_template.content@,
    {
        self.system_base_template.content.as_str()
    }

    pub fn subagent_shared_prompt(&self) -> (s: &str)
        ensures
            s@ == self.subagent_shared_prompt.content@,
    {
        self.subagent_shared_prompt.content.as_str()
    }

    pub fn subagent_explore_prompt(&self) -> (s: &str)
        ensures
            s@ == self.subagent_explore_prompt.content@,
    {
        self.subagent_explore_prompt.content.as_str()
    }

    pub fn subagent_general_prompt(&self) -> (s: &str)
        ensures
            s@ == self.subagent_general_prompt.content@,
    {
        self.subagent_general_prompt.content.as_str()
    }

    pub fn final_answer_recovery_template(&self) -> (s: &str)
        ensures
            s@ == self.final_answer_recovery_template.content@,
    {
        self.final_answer_recovery_template.content.as_str()
    }

    pub fn tool_descriptions(&self) -> (d: &Vec<(String, String)>)
        ensures
            *d == self.tool_descriptions,
    {
        &self.tool_descriptions
    }

    pub fn tool_descriptions_source(&self) -> (s: &PromptSource)
        ensures
            *s == self.tool_descriptions_source,
    {
        &self.tool_descriptions_source
    }

    pub fn middleware_messages(&self) -> (m: &MiddlewareMessages)
        ensures
            *m == self.middleware_messages,
    {
        &self.middleware_messages
    }

    pub fn middleware_messages_source(&self) -> (s: &PromptSource)
        ensures
            *s == self.middleware_messages_source,
    {
        &self.middleware_messages_source
    }
}

impl HarnessAssets {
    /// The description the harness gives a tool in place of its built-in one,
    /// if any.
    pub fn tool_description(&self, name: &str) -> (r: Option<String>)
        ensures
            match r {
                Some(d) => entries_map(entry_texts(self.tool_descriptions@)).dom().contains(name@)
                    && entries_map(entry_texts(self.tool_descriptions@))[name@] == d@,
                None => !entries_map(entry_texts(self.tool_descriptions@)).dom().contains(name@),
            },
    {
        proof {
            assert(entry_texts(self.tool_descriptions@) =~= pair_views(self.tool_descriptions@));
        }
        entry_value(&self.tool_descriptions, name)
    }
}

} // verus!

verus! {

/// The description that `descriptions` gives the tool `name` in place of
/// `current`, if it gives one.
pub open spec fn described(
    descriptions: Seq<(Seq<char>, Seq<char>)>,
    name: Seq<char>,
    current: Seq<char>,
) -> Seq<char> {
    if entries_map(descriptions).dom().contains(name) {
        entries_map(descriptions)[name]
    } else {
        current
    }
}

impl HarnessAssets {
    /// Gives each tool the description that the harness sets for its name;
    /// the other tools, and every name and parameter, stay as they are.
    pub fn apply_tool_descriptions(&self, tools: &mut Vec<ToolSchema>)
        ensures
            final(tools)@.len() == old(tools)@.len(),
            forall|i: int|
                0 <= i < old(tools)@.len() ==> {
                    &&& (#[trigger] final(tools)@[i]).name == old(tools)@[i].name
                    &&& final(tools)@[i].parameters == old(tools)@[i].parameters
                    &&& final(tools)@[i].description@ == described(
                        entry_texts(self.tool_descriptions@),
                        old(tools)@[i].name@,
                        old(tools)@[i].description@,
                    )
                },
    {
        let ghost orig = tools@;
        let mut rest: Vec<ToolSchema> = Vec::new();
        std::mem::swap(&mut rest, tools);
        let n = rest.len();
        let mut k: usize = 0;
        while k < n
            invariant
                0 <= k <= n,
                n == orig.len(),
                rest@ == orig.subrange(k as int, n as int),
                tools@.len() == k,
                forall|i: int|
                    0 <= i < k ==> {
                        &&& (#[trigger] tools@[i]).name == orig[i].name
                        &&& tools@[i].parameters == orig[i].parameters
                        &&& tools@[i].description@ == described(
                            entry_texts(self.tool_descriptions@),
                            orig[i].name@,
                            orig[i].description@,
                        )
                    },
            decreases n - k,
        {
            let tool = rest.remove(0);
            assert(tool == orig[k as int]);
            assert(rest@ =~= orig.subrange(k + 1, n as int));
            let description = match self.tool_description(tool.name.as_str()) {
                Some(d) => d,
                None => tool.description,
            };
            tools.push(ToolSchema { name: tool.name, description, parameters: tool.parameters });
            k += 1;
        }
    }
}

} // verus!
