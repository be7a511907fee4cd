use vstd::prelude::*;

use crate::domain::hitl::policy::{HitlDefaultAction, HitlPolicyRule};
use crate::domain::skills::models::SkillScope;
use crate::lists::texts;
use crate::text::{is_empty_text, str_eq, string_from_range, chars_of, trim, trim_seq};

verus! {

/// Whether a run keeps per-user memory between turns.
#[derive(Debug, Clone, Copy, PartialEq, Eq)]
pub enum ChatMode {
    Stateless,
    Memory,
}

impl ChatMode {
    pub open spec fn label(self) -> Seq<char> {
        match self {
            ChatMode::Stateless => "stateless"@,
            ChatMode::Memory => "memory"@,
        }
    }

    pub fn as_str(&self) -> (s: &'static str)
        ensures
            s@ == self.label(),
    {
        match self {
            ChatMode::Stateless => "stateless",
            ChatMode::Memory => "memory",
        }
    }

    /// Only memory runs may update memory files and private skills.
    pub fn allows_self_evolution(&self) -> (b: bool)
        ensures
            b == (*self == ChatMode::Memory),
    {
        match self {
            ChatMode::Memory => true,
            ChatMode::Stateless => false,
        }
    }
}

/// One earlier message of a conversation.
#[derive(Debug)]
pub struct HistoryEntry {
    pub role: String,
    pub content: String,
}

pub struct HistoryEntryView {
    pub role: Seq<char>,
    pub content: Seq<char>,
}

impl View for HistoryEntry {
    type V = HistoryEntryView;

    open spec fn view(&self) -> HistoryEntryView {
        HistoryEntryView { role: self.role@, content: self.content@ }
    }
}

impl Clone for HistoryEntry {
    fn clone(&self) -> (r: Self)
        ensures
            r == *self,
    {
        HistoryEntry { role: self.role.clone(), content: self.content.clone() }
    }
}

pub open spec fn history_views(h: Seq<HistoryEntry>) -> Seq<HistoryEntryView> {
    h.map_values(|e: HistoryEntry| e@)
}

/// A file that the user uploaded with a message.
#[derive(Debug, Clone)]
pub struct UploadedFile {
    pub original_name: String,
    pub saved_path: String,
    pub size: usize,
    pub content_type: Option<String>,
}

/// Per-request replacements for the self-evolution prompts.
#[derive(Debug, Clone, Default)]
pub struct AgentPromptOverrides {
    pub memory_maintenance_system: Option<String>,
    pub memory_maintenance_user_template: Option<String>,
    pub skill_learning_system: Option<String>,
    pub skill_learning_user_template: Option<String>,
}

/// How the tools of an MCP endpoint are offered to the model.
#[derive(Debug, Clone, Copy, PartialEq, Eq, Structural)]
pub enum McpExposureMode {
    Eager,
    Lazy,
    Disabled,
}

/// Per-request MCP settings.
#[derive(Debug, Clone, Default)]
pub struct McpOverrides {
    pub config_path: Option<String>,
    pub base_urls: Vec<String>,
    pub disabled_urls: Vec<String>,
    pub lazy_urls: Vec<String>,
    pub allowed_tools: Vec<String>,
    pub denied_tools: Vec<String>,
}

/// `s` without its trailing `/` characters.
pub open spec fn strip_trailing_slashes(s: Seq<char>) -> Seq<char>
    decreases s.len(),
{
    if s.len() > 0 && s.last() == '/' {
        strip_trailing_slashes(s.drop_last())
    } else {
        s
    }
}

/// An endpoint URL as it is compared: trimmed, trailing slashes removed.
pub open spec fn endpoint_key(s: Seq<char>) -> Seq<char> {
    strip_trailing_slashes(trim_seq(s))
}

/// Some entry of `list` names the same endpoint as `key`.
pub open spec fn lists_endpoint(list: Seq<Seq<char>>, key: Seq<char>) -> bool {
    exists|i: int| 0 <= i < list.len() && endpoint_key(#[trigger] list[i]) == key
}

/// The exposure of an endpoint: disabled wins over lazy, and eager is the rest.
pub open spec fn exposure_mode(
    disabled: Seq<Seq<char>>,
    lazy: Seq<Seq<char>>,
    endpoint: Seq<char>,
) -> McpExposureMode {
    let key = endpoint_key(endpoint);
    if lists_endpoint(disabled, key) {
        McpExposureMode::Disabled
    } else if lists_endpoint(lazy, key) {
        McpExposureMode::Lazy
    } else {
        McpExposureMode::Eager
    }
}

/// `value.trim().trim_end_matches('/')`.
pub fn normalize_mcp_endpoint(value: &str) -> (r: String)
    ensures
        r@ == endpoint_key(value@),
{
    let t = trim(value);
    let v = chars_of(t.as_str());
    let mut j = v.len();
    assert(v@.subrange(0, j as int) =~= v@);
    while j > 0 && v[j - 1] == '/'
        invariant
            j <= v.len(),
            strip_trailing_slashes(v@) == strip_trailing_slashes(v@.subrange(0, j as int)),
        decreases j,
    {
        assert(v@.subrange(0, j as int).drop_last() =~= v@.subrange(0, j - 1));
        j -= 1;
    }
    string_from_range(&v, 0, j)
}

fn lists_endpoint_exec(list: &Vec<String>, key: &str) -> (b: bool)
    ensures
        b == lists_endpoint(texts(list@), key@),
{
    let mut i: usize = 0;
    while i < list.len()
        invariant
            0 <= i <= list.len(),
            forall|j: int| 0 <= j < i ==> endpoint_key(#[trigger] texts(list@)[j]) != key@,
        decreases list.len() - i,
    {
        let k = normalize_mcp_endpoint(list[i].as_str());
        if str_eq(k.as_str(), key) {
            assert(endpoint_key(texts(list@)[i as int]) == key@);
            return true;
        }
        i += 1;
    }
    false
}

impl McpOverrides {
    /// How the endpoint's tools are offered: not at all when a disabled URL names
    /// it, on demand when a lazy URL does, else up front.
    pub fn exposure_mode_for_endpoint(&self, endpoint: &str) -> (m: McpExposureMode)
        ensures
            m == exposure_mode(texts(self.disabled_urls@), texts(self.lazy_urls@), endpoint@),
    {
        let normalized = normalize_mcp_endpoint(endpoint);
        if lists_endpoint_exec(&self.disabled_urls, normalized.as_str()) {
            return McpExposureMode::Disabled;
        }
        if lists_endpoint_exec(&self.lazy_urls, normalized.as_str()) {
            return McpExposureMode::Lazy;
        }
        McpExposureMode::Eager
    }

    /// Whether some lazy URL is in effect, i.e. not overridden by a disabled one.
    pub fn has_lazy_endpoints(&self) -> (b: bool)
        ensures
            b == exists|i: int|
                0 <= i < self.lazy_urls@.len() && exposure_mode(
                    texts(self.disabled_urls@),
                    texts(self.lazy_urls@),
                    #[trigger] texts(self.lazy_urls@)[i],
                ) == McpExposureMode::Lazy,
    {
        let mut i: usize = 0;
        while i < self.lazy_urls.len()
            invariant
                0 <= i <= self.lazy_urls.len(),
                forall|j: int|
                    0 <= j < i ==> exposure_mode(
                        texts(self.disabled_urls@),
                        texts(self.lazy_urls@),
                        #[trigger] texts(self.lazy_urls@)[j],
                    ) != McpExposureMode::Lazy,
            decreases self.lazy_urls.len() - i,
        {
            let m = self.exposure_mode_for_endpoint(self.lazy_urls[i].as_str());
            assert(texts(self.lazy_urls@)[i as int] == self.lazy_urls@[i as int]@);
            if m == McpExposureMode::Lazy {
                return true;
            }
            i += 1;
        }
        false
    }
}

// ---------------------------------------------------------------------------
// Built-in tools
// ---------------------------------------------------------------------------

/// The names of the built-in tools.
pub open spec fn builtin_names() -> Seq<Seq<char>> {
    seq![
        "TodoWrite"@, "background_run"@, "broadcast"@, "check_background"@, "claim_task"@,
        "compress"@, "edit_file"@, "idle"@, "list_teammates"@, "load_skill"@, "plan_approval"@,
        "read_file"@, "read_inbox"@, "send_message"@, "shutdown_request"@, "spawn_teammate"@,
        "task"@, "task_bind_worktree"@, "task_create"@, "task_get"@, "task_list"@,
        "task_update"@, "worktree_create"@, "worktree_events"@, "worktree_keep"@,
        "worktree_list"@, "worktree_remove"@, "worktree_run"@, "worktree_status"@,
        "write_file"@,
    ]
}

/// The built-in tool names as a table.
pub fn builtin_tool_name_table() -> (v: Vec<&'static str>)
    ensures
        v@.map_values(|s: &str| s@) == builtin_names(),
{
    let v = vec![
        "TodoWrite", "background_run", "broadcast", "check_background", "claim_task",
        "compress", "edit_file", "idle", "list_teammates", "load_skill", "plan_approval",
        "read_file", "read_inbox", "send_message", "shutdown_request", "spawn_teammate",
        "task", "task_bind_worktree", "task_create", "task_get", "task_list",
        "task_update", "worktree_create", "worktree_events", "worktree_keep",
        "worktree_list", "worktree_remove", "worktree_run", "worktree_status",
        "write_file",
    ];
    assert(v@.map_values(|s: &str| s@) =~= builtin_names());
    v
}

/// A tool name as it is compared: trimmed.
pub fn normalize_builtin_tool_name(name: &str) -> (r: String)
    ensures
        r@ == trim_seq(name@),
{
    trim(name)
}

pub open spec fn is_builtin(name: Seq<char>) -> bool {
    builtin_names().contains(trim_seq(name))
}

fn table_contains(name: &str) -> (b: bool)
    ensures
        b == builtin_names().contains(name@),
{
    let table = builtin_tool_name_table();
    let ghost names = table@.map_values(|s: &str| s@);
    let mut i: usize = 0;
    while i < table.len()
        invariant
            0 <= i <= table.len(),
            names == table@.map_values(|s: &str| s@),
            names == builtin_names(),
            forall|j: int| 0 <= j < i ==> names[j] != name@,
        decreases table.len() - i,
    {
        if str_eq(table[i], name) {
            assert(names[i as int] == name@);
            return true;
        }
        i += 1;
    }
    false
}

/// Whether the trimmed name is one of the built-in tools.
pub fn is_builtin_tool(name: &str) -> (b: bool)
    ensures
        b == is_builtin(name@),
{
    let normalized = normalize_builtin_tool_name(name);
    table_contains(normalized.as_str())
}

pub open spec fn is_file_tool_name(name: Seq<char>) -> bool {
    let t = trim_seq(name);
    t == "read_file"@ || t == "write_file"@ || t == "edit_file"@
}

/// Whether the trimmed name is `read_file`, `write_file` or `edit_file`.
pub fn is_builtin_file_tool(name: &str) -> (b: bool)
    ensures
        b == is_file_tool_name(name@),
{
    let n = normalize_builtin_tool_name(name);
    str_eq(n.as_str(), "read_file") || str_eq(n.as_str(), "write_file") || str_eq(
        n.as_str(),
        "edit_file",
    )
}

/// The names trimmed; blank, unknown and repeated names dropped; first occurrences
/// kept in their order.
pub open spec fn builtin_list(vs: Seq<Seq<char>>) -> Seq<Seq<char>>
    decreases vs.len(),
{
    if vs.len() == 0 {
        Seq::empty()
    } else {
        let prev = builtin_list(vs.drop_last());
        let t = trim_seq(vs.last());
        if t.len() == 0 || !is_builtin(t) || prev.contains(t) {
            prev
        } else {
            prev.push(t)
        }
    }
}

/// Keeps the known built-in tool names of `values`, trimmed, each once.
pub fn normalize_builtin_tool_list(values: Vec<String>) -> (out: Vec<String>)
    ensures
        texts(out@) == builtin_list(texts(values@)),
{
    let mut out: Vec<String> = Vec::new();
    let mut i: usize = 0;
    while i < values.len()
        invariant
            0 <= i <= values.len(),
            texts(out@) == builtin_list(texts(values@).take(i as int)),
        decreases values.len() - i,
    {
        let item = normalize_builtin_tool_name(values[i].as_str());
        let ghost prefix = texts(values@).take(i as int);
        let ghost next = texts(values@).take(i + 1);
        assert(next.drop_last() =~= prefix);
        assert(next.last() == values@[i as int]@);
        if is_empty_text(item.as_str()) || !is_builtin_tool(item.as_str())
            || crate::lists::contains_text(&out, item.as_str()) {
        } else {
            out.push(item);
            assert(texts(out@) =~= builtin_list(prefix).push(item@));
        }
        i += 1;
    }
    assert(texts(values@).take(values.len() as int) =~= texts(values@));
    out
}

/// Which built-in tools a request may use.
#[derive(Debug, Clone)]
pub struct BuiltinToolOverrides {
    pub enabled: bool,
    pub allowed_tools: Vec<String>,
    pub denied_tools: Vec<String>,
}

impl Default for BuiltinToolOverrides {
    fn default() -> (r: Self)
        ensures
            r.enabled,
            r.allowed_tools@.len() == 0,
            r.denied_tools@.len() == 0,
    {
        BuiltinToolOverrides { enabled: true, allowed_tools: Vec::new(), denied_tools: Vec::new() }
    }
}

/// Some entry of `list`, trimmed, equals `name`.
pub open spec fn names_tool(list: Seq<Seq<char>>, name: Seq<char>) -> bool {
    exists|i: int| 0 <= i < list.len() && trim_seq(#[trigger] list[i]) == name
}

/// Whether the overrides let the tool `name` run: a known built-in tool, built-in
/// tools switched on, not denied, and allowed (an empty allow list allows all).
pub open spec fn builtin_allowed(
    enabled: bool,
    allowed: Seq<Seq<char>>,
    denied: Seq<Seq<char>>,
    name: Seq<char>,
) -> bool {
    let n = trim_seq(name);
    n.len() > 0 && is_builtin(n) && enabled && !names_tool(denied, n) && (allowed.len() == 0
        || names_tool(allowed, n))
}

fn names_tool_exec(list: &Vec<String>, name: &str) -> (b: bool)
    ensures
        b == names_tool(texts(list@), name@),
{
    let mut i: usize = 0;
    while i < list.len()
        invariant
            0 <= i <= list.len(),
            forall|j: int| 0 <= j < i ==> trim_seq(#[trigger] texts(list@)[j]) != name@,
        decreases list.len() - i,
    {
        let t = normalize_builtin_tool_name(list[i].as_str());
        if str_eq(t.as_str(), name) {
            assert(trim_seq(texts(list@)[i as int]) == name@);
            return true;
        }
        i += 1;
    }
    false
}

/// Built-in tools switched off let no tool run; a denied tool never runs;
/// a tool that runs is a known built-in tool, and on the allow list when
/// there is one.
pub proof fn lemma_builtin_allowed_needs(
    enabled: bool,
    allowed: Seq<Seq<char>>,
    denied: Seq<Seq<char>>,
    name: Seq<char>,
)
    ensures
        !enabled ==> !builtin_allowed(enabled, allowed, denied, name),
        (exists|j: int| 0 <= j < denied.len() && trim_seq(#[trigger] denied[j]) == trim_seq(name))
            ==> !builtin_allowed(enabled, allowed, denied, name),
        builtin_allowed(enabled, allowed, denied, name) ==> trim_seq(name).len() > 0 && is_builtin(
            trim_seq(name),
        ),
        builtin_allowed(enabled, allowed, denied, name) ==> allowed.len() == 0 || exists|j: int|
            0 <= j < allowed.len() && trim_seq(#[trigger] allowed[j]) == trim_seq(name),
{
}

impl BuiltinToolOverrides {
    /// Whether the built-in tool `name` may run under these overrides.
    pub fn allows(&self, name: &str) -> (b: bool)
        ensures
            b == builtin_allowed(
                self.enabled,
                texts(self.allowed_tools@),
                texts(self.denied_tools@),
                name@,
            ),
            !self.enabled ==> !b,
            (exists|j: int|
                0 <= j < self.denied_tools@.len() && trim_seq(#[trigger] self.denied_tools@[j]@)
                    == trim_seq(name@)) ==> !b,
            b ==> trim_seq(name@).len() > 0 && is_builtin(trim_seq(name@)),
            b ==> self.allowed_tools@.len() == 0 || exists|j: int|
                0 <= j < self.allowed_tools@.len() && trim_seq(#[trigger] self.allowed_tools@[j]@)
                    == trim_seq(name@),
    {
        proof {
            lemma_builtin_allowed_needs(
                self.enabled,
                texts(self.allowed_tools@),
                texts(self.denied_tools@),
                name@,
            );
            if exists|j: int|
                0 <= j < self.denied_tools@.len() && trim_seq(#[trigger] self.denied_tools@[j]@)
                    == trim_seq(name@) {
                let j = choose|j: int|
                    0 <= j < self.denied_tools@.len() && trim_seq(#[trigger] self.denied_tools@[j]@)
                        == trim_seq(name@);
                assert(texts(self.denied_tools@)[j] == self.denied_tools@[j]@);
            }
            if names_tool(texts(self.allowed_tools@), trim_seq(name@)) {
                let j = choose|j: int|
                    0 <= j < texts(self.allowed_tools@).len() && trim_seq(
                        #[trigger] texts(self.allowed_tools@)[j],
                    ) == trim_seq(name@);
                assert(texts(self.allowed_tools@)[j] == self.allowed_tools@[j]@);
            }
        }
        let normalized = normalize_builtin_tool_name(name);
        if is_empty_text(normalized.as_str()) || !is_builtin_tool(normalized.as_str()) {
            return false;
        }
        if !self.enabled {
            return false;
        }
        if names_tool_exec(&self.denied_tools, normalized.as_str()) {
            return false;
        }
        self.allowed_tools.len() == 0 || names_tool_exec(&self.allowed_tools, normalized.as_str())
    }
}

/// Per-request human-in-the-loop settings.
#[derive(Debug, Clone)]
pub struct HitlOverrides {
    pub enabled: bool,
    pub default_action: HitlDefaultAction,
    pub timeout_seconds: u64,
    pub rules: Vec<HitlPolicyRule>,
}

impl Default for HitlOverrides {
    fn default() -> (r: Self)
        ensures
            !r.enabled,
            r.default_action == HitlDefaultAction::Auto,
            r.timeout_seconds == 300,
            r.rules@.len() == 0,
    {
        HitlOverrides {
            enabled: false,
            default_action: HitlDefaultAction::Auto,
            timeout_seconds: 300,
            rules: Vec::new(),
        }
    }
}

#[derive(Debug, Clone)]
pub struct SystemPromptPreview {
    pub stateless_prompt: String,
    pub memory_prompt: String,
}

#[derive(Debug, Clone)]
pub struct AgentPromptSettingsPreview {
    pub memory_maintenance_system: String,
    pub memory_maintenance_user_template: String,
    pub skill_learning_system: String,
    pub skill_learning_user_template: String,
}

#[derive(Debug, Clone)]
pub struct McpSettingsPreview {
    pub servers: Vec<McpServerPreviewDto>,
}

#[derive(Debug, Clone)]
pub struct McpServerPreviewDto {
    pub endpoint: String,
    pub endpoint_key: String,
    pub mode: McpExposureMode,
    pub ok: bool,
    pub tool_count: usize,
    pub tools: Vec<McpToolPreviewDto>,
    pub error: Option<String>,
}

#[derive(Debug, Clone)]
pub struct McpToolPreviewDto {
    pub name: String,
    pub description: String,
}

/// Which skills a request may use; an empty allow list allows all.
#[derive(Debug, Clone, Default)]
pub struct SkillPermissions {
    pub allowed_skills: Vec<String>,
    pub denied_skills: Vec<String>,
}

/// A generated file offered for download.
#[derive(Debug, Clone)]
pub struct OutputFile {
    pub name: String,
    pub path: String,
}

/// The answer to a steering message.
#[derive(Debug, Clone)]
pub struct SteeringSubmission {
    pub status: String,
    pub session_id: String,
}

/// A skill that a run loaded.
#[derive(Debug, Clone)]
pub struct SkillUsage {
    pub name: String,
    pub scope: SkillScope,
}

} // verus!

verus! {

/// The token counts that a model reports for one response.
#[derive(Debug, Clone, Copy, PartialEq, Eq)]
pub struct TokenUsage {
    pub prompt_tokens: u32,
    pub completion_tokens: u32,
    pub total_tokens: u32,
}

/// The counts as the chat result reports them: nothing when the model
/// reported no tokens at all; a missing total is the sum of the other two,
/// held at `u32::MAX`.
pub open spec fn reported_usage(u: TokenUsage) -> Option<TokenUsage> {
    if u.prompt_tokens == 0 && u.completion_tokens == 0 && u.total_tokens == 0 {
        None
    } else {
        Some(
            TokenUsage {
                total_tokens: if u.total_tokens == 0 {
                    if u.prompt_tokens + u.completion_tokens > u32::MAX {
                        u32::MAX
                    } else {
                        (u.prompt_tokens + u.completion_tokens) as u32
                    }
                } else {
                    u.total_tokens
                },
                ..u
            },
        )
    }
}

impl TokenUsage {
    /// The counts to report, as `reported_usage` states.
    pub fn reported(self) -> (r: Option<TokenUsage>)
        ensures
            r == reported_usage(self),
    {
        if self.prompt_tokens == 0 && self.completion_tokens == 0 && self.total_tokens == 0 {
            return None;
        }
        let total_tokens = if self.total_tokens == 0 {
            self.prompt_tokens.saturating_add(self.completion_tokens)
        } else {
            self.total_tokens
        };
        Some(TokenUsage { total_tokens, ..self })
    }
}

} // verus!
