use vstd::prelude::*;

use crate::api::routes::frontend::{file_name, file_name_of};
use crate::domain::chat::message::{ChatMessage, ChatMessageView, message_views};
use crate::domain::chat::models::{HistoryEntry, HistoryEntryView, history_views};
use crate::domain::harness::trace::HarnessTracePrompts;
use crate::domain::harness::{HarnessAssets, PromptSource};
use crate::domain::hitl::models::HitlDecisionStatus;
use crate::domain::session::background::{BackgroundNotification, BackgroundNotificationView, notification_views};
use crate::order::{text_less, text_lt, lemma_text_lt_irreflexive, lemma_text_lt_total, lemma_text_lt_transitive};
use crate::lists::texts;
use crate::text::{
    chars_of, concat2, is_empty_text, lower_seq, owned, push_str, str_eq, string_from_range,
    to_ascii_lowercase, trim, trim_seq,
};

verus! {

// ---------------------------------------------------------------------------
// The system prompt and the first messages of a turn
// ---------------------------------------------------------------------------

pub const NO_SKILLS: &'static str = "(no skills available)";

/// The system prompt with the skills the agent may load, unless there are
/// none.
pub open spec fn system_with_skills_text(base: Seq<char>, descriptions: Seq<char>) -> Seq<char> {
    if descriptions == NO_SKILLS@ {
        base
    } else {
        base + "\n\nSkills available (call load_skill to use):\n"@ + descriptions
    }
}

pub fn system_with_skills(base: String, descriptions: &str) -> (s: String)
    ensures
        s@ == system_with_skills_text(base@, descriptions@),
{
    if str_eq(descriptions, NO_SKILLS) {
        return base;
    }
    let mut s = base;
    push_str(&mut s, "\n\nSkills available (call load_skill to use):\n");
    push_str(&mut s, descriptions);
    s
}

pub open spec fn entry_message(h: HistoryEntryView) -> ChatMessageView {
    ChatMessageView { role: h.role, content: Some(h.content), tool_call_id: None, tool_calls: None }
}

/// The messages a turn starts with: the system prompt, the history as it was
/// given, then the user's message.
pub fn initial_messages(system_prompt: &str, history: &Vec<HistoryEntry>, user_message: &str) -> (r:
    Vec<ChatMessage>)
    ensures
        r@.len() == history@.len() + 2,
        r@[0]@.role == "system"@,
        r@[0]@.content == Some(system_prompt@),
        r@[0]@.tool_call_id is None,
        r@[0]@.tool_calls is None,
        forall|i: int|
            0 <= i < history@.len() ==> #[trigger] r@[i + 1]@ == entry_message(history@[i]@),
        r@[history@.len() as int + 1]@ == ChatMessage::user_view(user_message@),
{
    let mut r: Vec<ChatMessage> = Vec::new();
    r.push(ChatMessage::system(system_prompt));
    let mut i: usize = 0;
    while i < history.len()
        invariant
            0 <= i <= history.len(),
            r@.len() == i + 1,
            r@[0]@.role == "system"@,
            r@[0]@.content == Some(system_prompt@),
            r@[0]@.tool_call_id is None,
            r@[0]@.tool_calls is None,
            forall|k: int| 0 <= k < i ==> #[trigger] r@[k + 1]@ == entry_message(history@[k]@),
        decreases history.len() - i,
    {
        let m = ChatMessage {
            role: owned(history[i].role.as_str()),
            content: Some(owned(history[i].content.as_str())),
            tool_call_id: None,
            tool_calls: None,
        };
        r.push(m);
        i += 1;
    }
    r.push(ChatMessage::user(user_message));
    r
}

// ---------------------------------------------------------------------------
// What the session brings into a running turn
// ---------------------------------------------------------------------------

pub open spec fn notification_line(n: BackgroundNotificationView) -> Seq<char> {
    "[bg:"@ + n.task_id + "] "@ + n.status + ": "@ + n.result
}

pub open spec fn notification_lines(ns: Seq<BackgroundNotificationView>) -> Seq<char>
    decreases ns.len(),
{
    if ns.len() == 0 {
        Seq::empty()
    } else if ns.len() == 1 {
        notification_line(ns[0])
    } else {
        notification_lines(ns.drop_last()) + "\n"@ + notification_line(ns.last())
    }
}

/// The user message that reports finished background tasks.
pub open spec fn background_results_text(ns: Seq<BackgroundNotificationView>) -> Seq<char> {
    "<background-results>\n"@ + notification_lines(ns) + "\n</background-results>"@
}

pub fn background_results_block(notifications: &Vec<BackgroundNotification>) -> (s: String)
    ensures
        s@ == background_results_text(notification_views(notifications@)),
{
    let ghost ns = notification_views(notifications@);
    let mut s = owned("<background-results>\n");
    let ghost head = s@;
    let mut i: usize = 0;
    assert(ns.take(0) =~= Seq::<BackgroundNotificationView>::empty());
    while i < notifications.len()
        invariant
            0 <= i <= notifications.len(),
            ns == notification_views(notifications@),
            head == "<background-results>\n"@,
            s@ == head + notification_lines(ns.take(i as int)),
        decreases notifications.len() - i,
    {
        let n = &notifications[i];
        assert(ns[i as int] == n@);
        assert(ns.take(i + 1).drop_last() =~= ns.take(i as int));
        assert(ns.take(i + 1).last() == n@);
        let ghost before = s@;
        if i > 0 {
            push_str(&mut s, "\n");
        } else {
            assert(ns.take(1) =~= seq![n@]);
        }
        push_str(&mut s, "[bg:");
        push_str(&mut s, n.task_id.as_str());
        push_str(&mut s, "] ");
        push_str(&mut s, n.status.as_str());
        push_str(&mut s, ": ");
        push_str(&mut s, n.result.as_str());
        i += 1;
    }
    assert(ns.take(notifications.len() as int) =~= ns);
    push_str(&mut s, "\n</background-results>");
    s
}

/// The message pairs a turn receives from its session: finished background
/// tasks, then the lead's inbox, then steering for the run, each (when there
/// is one) as a user message and the assistant's acknowledgement.
pub open spec fn session_feed(
    notifications: Seq<BackgroundNotificationView>,
    inbox_block: Option<Seq<char>>,
    steering_block: Option<Seq<char>>,
    background_ack: Seq<char>,
    inbox_ack: Seq<char>,
    steering_ack: Seq<char>,
) -> Seq<ChatMessageView> {
    (if notifications.len() > 0 {
        seq![
            ChatMessage::user_view(background_results_text(notifications)),
            ChatMessage::assistant_view(background_ack),
        ]
    } else {
        Seq::empty()
    }) + (match inbox_block {
        Some(b) => seq![ChatMessage::user_view(b), ChatMessage::assistant_view(inbox_ack)],
        None => Seq::empty(),
    }) + (match steering_block {
        Some(b) => seq![ChatMessage::user_view(b), ChatMessage::assistant_view(steering_ack)],
        None => Seq::empty(),
    })
}

fn push_pair(messages: &mut Vec<ChatMessage>, user: &str, ack: &str)
    ensures
        message_views(final(messages)@) == message_views(old(messages)@) + seq![
            ChatMessage::user_view(user@),
            ChatMessage::assistant_view(ack@),
        ],
{
    let ghost before = message_views(messages@);
    let u = ChatMessage::user(user);
    let a = ChatMessage::assistant(Some(owned(ack)), Vec::new());
    let ghost uv = u@;
    let ghost av = a@;
    messages.push(u);
    messages.push(a);
    assert(message_views(messages@) =~= before + seq![uv, av]);
}

/// Adds to a running turn what its session has for it.
pub fn inject_session_messages(
    messages: &mut Vec<ChatMessage>,
    notifications: &Vec<BackgroundNotification>,
    inbox_block: Option<&str>,
    steering_block: Option<&str>,
    background_ack: &str,
    inbox_ack: &str,
    steering_ack: &str,
)
    ensures
        message_views(final(messages)@) == message_views(old(messages)@) + session_feed(
            notification_views(notifications@),
            match inbox_block {
                Some(b) => Some(b@),
                None => None,
            },
            match steering_block {
                Some(b) => Some(b@),
                None => None,
            },
            background_ack@,
            inbox_ack@,
            steering_ack@,
        ),
{
    let ghost start = message_views(messages@);
    if notifications.len() > 0 {
        let text = background_results_block(notifications);
        push_pair(messages, text.as_str(), background_ack);
    }
    let ghost after_bg = message_views(messages@);
    match inbox_block {
        Some(b) => push_pair(messages, b, inbox_ack),
        None => {},
    }
    let ghost after_inbox = message_views(messages@);
    match steering_block {
        Some(b) => push_pair(messages, b, steering_ack),
        None => {},
    }
    assert(message_views(messages@) =~= start + session_feed(
        notification_views(notifications@),
        match inbox_block {
            Some(b) => Some(b@),
            None => None,
        },
        match steering_block {
            Some(b) => Some(b@),
            None => None,
        },
        background_ack@,
        inbox_ack@,
        steering_ack@,
    ));
}

// ---------------------------------------------------------------------------
// Recovering a missing final reply
// ---------------------------------------------------------------------------

/// The conversation asked once more for a final answer.
pub fn recovery_messages(messages: &Vec<ChatMessage>, recovery_prompt: &str) -> (r: Vec<
    ChatMessage,
>)
    ensures
        message_views(r@) == message_views(messages@).push(ChatMessage::user_view(recovery_prompt@)),
{
    let mut r: Vec<ChatMessage> = Vec::new();
    let mut i: usize = 0;
    while i < messages.len()
        invariant
            0 <= i <= messages.len(),
            message_views(r@) == message_views(messages@).take(i as int),
        decreases messages.len() - i,
    {
        let m = messages[i].clone();
        let ghost before = message_views(r@);
        r.push(m);
        assert(message_views(r@) =~= message_views(messages@).take(i + 1)) by {
            assert(message_views(r@) =~= before.push(messages@[i as int]@));
        }
        i += 1;
    }
    assert(message_views(messages@).take(messages.len() as int) =~= message_views(messages@));
    let u = ChatMessage::user(recovery_prompt);
    let ghost before = message_views(r@);
    r.push(u);
    assert(message_views(r@) =~= before.push(ChatMessage::user_view(recovery_prompt@)));
    r
}

/// The reply that a recovery gave: its content trimmed, when not blank.
pub fn recovered_reply(content: Option<String>) -> (r: Option<String>)
    ensures
        match content {
            Some(c) => if trim_seq(c@).len() > 0 {
                r matches Some(t) && t@ == trim_seq(c@)
            } else {
                r is None
            },
            None => r is None,
        },
{
    match content {
        Some(c) => {
            let t = trim(c.as_str());
            if is_empty_text(t.as_str()) {
                None
            } else {
                Some(t)
            }
        },
        None => None,
    }
}

// ---------------------------------------------------------------------------
// Small labels
// ---------------------------------------------------------------------------

pub open spec fn status_label(s: HitlDecisionStatus) -> Seq<char> {
    match s {
        HitlDecisionStatus::Pending => "pending"@,
        HitlDecisionStatus::Approved => "approved"@,
        HitlDecisionStatus::Rejected => "rejected"@,
        HitlDecisionStatus::Modified => "modified"@,
        HitlDecisionStatus::Expired => "expired"@,
    }
}

/// The name of how a confirmation was answered.
pub fn hitl_status_label(status: HitlDecisionStatus) -> (s: &'static str)
    ensures
        s@ == status_label(status),
{
    match status {
        HitlDecisionStatus::Pending => "pending",
        HitlDecisionStatus::Approved => "approved",
        HitlDecisionStatus::Rejected => "rejected",
        HitlDecisionStatus::Modified => "modified",
        HitlDecisionStatus::Expired => "expired",
    }
}

/// A session's id for the log, or `-` without a session.
pub fn session_id_or_dash(session_id: Option<&str>) -> (s: &str)
    ensures
        s@ == match session_id {
            Some(id) => id@,
            None => "-"@,
        },
{
    match session_id {
        Some(id) => id,
        None => "-",
    }
}

// ---------------------------------------------------------------------------
// Skills used in a turn
// ---------------------------------------------------------------------------

pub open spec fn strictly_sorted(v: Seq<Seq<char>>) -> bool {
    forall|i: int, j: int| 0 <= i < j < v.len() ==> text_lt(#[trigger] v[i], #[trigger] v[j])
}

/// The names used, each once, in order (`sort` then `dedup`).
pub fn unique_skill_names(names: &Vec<String>) -> (r: Vec<String>)
    ensures
        strictly_sorted(texts(r@)),
        forall|x: Seq<char>|
            #[trigger] texts(r@).contains(x) <==> texts(names@).contains(x),
{
    let ghost ns = texts(names@);
    let mut r: Vec<String> = Vec::new();
    let mut i: usize = 0;
    while i < names.len()
        invariant
            0 <= i <= names.len(),
            ns == texts(names@),
            strictly_sorted(texts(r@)),
            forall|x: Seq<char>| #[trigger] texts(r@).contains(x) <==> ns.take(i as int).contains(x),
        decreases names.len() - i,
    {
        let ghost rv = texts(r@);
        let name = names[i].as_str();
        assert(ns[i as int] == name@);
        let mut p: usize = 0;
        while p < r.len() && text_less(r[p].as_str(), name)
            invariant
                0 <= p <= r.len(),
                rv == texts(r@),
                strictly_sorted(rv),
                forall|k: int| 0 <= k < p ==> text_lt(#[trigger] rv[k], name@),
            decreases r.len() - p,
        {
            p += 1;
        }
        let present = p < r.len() && str_eq(r[p].as_str(), name);
        proof {
            let pa = ns.take(i as int);
            let pb = ns.take(i + 1);
            assert(pb =~= pa.push(name@));
            assert forall|x: Seq<char>| pa.contains(x) ==> pb.contains(x) by {
                if pa.contains(x) {
                    let k = choose|k: int| 0 <= k < pa.len() && pa[k] == x;
                    assert(pb[k] == x);
                }
            }
            assert forall|x: Seq<char>| pb.contains(x) ==> (pa.contains(x) || x == name@) by {
                if pb.contains(x) {
                    let k = choose|k: int| 0 <= k < pb.len() && pb[k] == x;
                    if k < i {
                        assert(pa[k] == x);
                    }
                }
            }
            assert(pb[i as int] == name@);
        }
        if !present {
            let ghost before = rv;
            r.insert(p, owned(name));
            proof {
                let after = texts(r@);
                assert(after =~= before.insert(p as int, name@));
                if p < before.len() {
                    lemma_text_lt_total(before[p as int], name@);
                    assert(!text_lt(before[p as int], name@));
                    assert(before[p as int] != name@);
                    assert(text_lt(name@, before[p as int]));
                }
                assert forall|a: int, b: int| 0 <= a < b < after.len() implies text_lt(
                    #[trigger] after[a],
                    #[trigger] after[b],
                ) by {
                    if b < p {
                        assert(after[a] == before[a] && after[b] == before[b]);
                    } else if b == p {
                        assert(after[a] == before[a]);
                    } else if a < p {
                        assert(after[a] == before[a] && after[b] == before[b - 1]);
                        if b - 1 > p {
                            lemma_text_lt_transitive(name@, before[p as int], before[b - 1]);
                        }
                        lemma_text_lt_transitive(before[a], name@, before[b - 1]);
                    } else if a == p {
                        assert(after[b] == before[b - 1]);
                        if b - 1 > p {
                            lemma_text_lt_transitive(name@, before[p as int], before[b - 1]);
                        }
                    } else {
                        assert(after[a] == before[a - 1] && after[b] == before[b - 1]);
                    }
                }
                assert forall|x: Seq<char>| after.contains(x) <==> ns.take(i + 1).contains(x) by {
                    if after.contains(x) {
                        let k = choose|k: int| 0 <= k < after.len() && after[k] == x;
                        if k < p {
                            assert(before[k] == x);
                        } else if k > p {
                            assert(before[k - 1] == x);
                        }
                    }
                    if before.contains(x) {
                        let k = choose|k: int| 0 <= k < before.len() && before[k] == x;
                        if k < p {
                            assert(after[k] == x);
                        } else {
                            assert(after[k + 1] == x);
                        }
                    }
                    if x == name@ {
                        assert(after[p as int] == x);
                    }
                }
            }
        } else {
            proof {
                assert(rv[p as int] == name@);
            }
        }
        i += 1;
    }
    assert(ns.take(names.len() as int) =~= ns);
    r
}

// ---------------------------------------------------------------------------
// Files read through an MCP server
// ---------------------------------------------------------------------------

/// The extension of a file name (`Path::extension`): what follows the last
/// `.`, unless that dot starts the name or there is none.
pub open spec fn name_extension(name: Seq<char>) -> Option<Seq<char>> {
    if name == seq!['.', '.'] {
        None
    } else if exists|i: int| 0 <= i < name.len() && name[i] == '.' {
        let k = choose|k: int|
            0 <= k < name.len() && name[k] == '.' && forall|j: int| k < j < name.len() ==> name[j] != '.';
        if k == 0 {
            None
        } else {
            Some(name.subrange(k + 1, name.len() as int))
        }
    } else {
        None
    }
}

/// Office documents and tables are read through an MCP server.
pub open spec fn reads_through_mcp(path: Seq<char>) -> bool {
    match file_name_of(path) {
        Some(name) => match name_extension(name) {
            Some(ext) => {
                let e = lower_seq(ext);
                e == "docx"@ || e == "xlsx"@ || e == "xls"@ || e == "csv"@
            },
            None => false,
        },
        None => false,
    }
}

pub fn extension(name: &str) -> (r: Option<String>)
    ensures
        match r {
            Some(e) => name_extension(name@) == Some(e@),
            None => name_extension(name@) is None,
        },
{
    let v = chars_of(name);
    if v.len() == 2 && v[0] == '.' && v[1] == '.' {
        assert(v@ =~= seq!['.', '.']);
        return None;
    }
    proof {
        if name@ == seq!['.', '.'] {
            assert(v@.len() == 2 && v@[0] == '.' && v@[1] == '.');
        }
    }
    let mut i: usize = v.len();
    while i > 0 && v[i - 1] != '.'
        invariant
            i <= v.len(),
            v@ == name@,
            forall|j: int| i <= j < v.len() ==> v@[j] != '.',
        decreases i,
    {
        i -= 1;
    }
    if i == 0 {
        proof {
            assert(!exists|k: int| 0 <= k < name@.len() && name@[k] == '.');
        }
        return None;
    }
    let k = i - 1;
    proof {
        let c = choose|c: int|
            0 <= c < name@.len() && name@[c] == '.' && forall|j: int| c < j < name@.len() ==> name@[j] != '.';
        assert(name@[k as int] == '.');
        assert(c == k) by {
            if c < k {
                assert(name@[k as int] != '.');
            } else if c > k {
            }
        }
    }
    if k == 0 {
        return None;
    }
    Some(string_from_range(&v, k + 1, v.len()))
}

/// Whether a file tool call's `path` argument is to be read through an MCP
/// server.
pub fn should_use_mcp_file_reader(path: Option<&str>) -> (b: bool)
    ensures
        b == match path {
            Some(p) => reads_through_mcp(p@),
            None => false,
        },
{
    let p = match path {
        Some(p) => p,
        None => {
            return false;
        },
    };
    let name = match file_name(p) {
        Some(n) => n,
        None => {
            return false;
        },
    };
    match extension(name.as_str()) {
        Some(ext) => {
            let e = to_ascii_lowercase(ext.as_str());
            str_eq(e.as_str(), "docx") || str_eq(e.as_str(), "xlsx") || str_eq(e.as_str(), "xls")
                || str_eq(e.as_str(), "csv")
        },
        None => false,
    }
}

// ---------------------------------------------------------------------------
// Where the prompts of a run came from
// ---------------------------------------------------------------------------

/// A prompt's source: the request when it overrides the prompt, else where
/// the repository's prompt came from.
pub fn resolve_prompt_source(request_override: bool, repo_source: PromptSource) -> (s: PromptSource)
    ensures
        request_override ==> s == PromptSource::request_spec(),
        !request_override ==> s == repo_source,
{
    if request_override {
        PromptSource::request()
    } else {
        repo_source
    }
}

/// Where each prompt of a run came from: the top-level system prompt and its
/// appendix from the request when it gave them, the agent's prompts from the
/// harness, and the memory and skill prompts as resolved.
pub fn build_trace_prompts(
    harness: &HarnessAssets,
    request_system: bool,
    request_system_append: bool,
    memory_maintenance_system: PromptSource,
    memory_maintenance_user_template: PromptSource,
    skill_learning_system: PromptSource,
    skill_learning_user_template: PromptSource,
) -> (p: HarnessTracePrompts)
    ensures
        request_system ==> p.top_level_system == PromptSource::request_spec(),
        !request_system ==> p.top_level_system == harness.system_base_template.source,
        request_system_append ==> p.system_append == PromptSource::request_spec(),
        !request_system_append ==> p.system_append == PromptSource::none_spec(),
        p.final_answer_recovery == harness.final_answer_recovery_template.source,
        p.subagent_shared == harness.subagent_shared_prompt.source,
        p.subagent_explore == harness.subagent_explore_prompt.source,
        p.subagent_general == harness.subagent_general_prompt.source,
        p.memory_maintenance_system == memory_maintenance_system,
        p.memory_maintenance_user_template == memory_maintenance_user_template,
        p.skill_learning_system == skill_learning_system,
        p.skill_learning_user_template == skill_learning_user_template,
{
    HarnessTracePrompts {
        top_level_system: if request_system {
            PromptSource::request()
        } else {
            harness.system_base_source().duplicate()
        },
        system_append: if request_system_append {
            PromptSource::request()
        } else {
            PromptSource::none()
        },
        final_answer_recovery: harness.final_answer_recovery_source().duplicate(),
        subagent_shared: harness.subagent_shared_source().duplicate(),
        subagent_explore: harness.subagent_explore_source().duplicate(),
        subagent_general: harness.subagent_general_source().duplicate(),
        memory_maintenance_system,
        memory_maintenance_user_template,
        skill_learning_system,
        skill_learning_user_template,
    }
}

} // verus!
