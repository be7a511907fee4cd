use vstd::prelude::*;
use vstd::utf8::{decode_utf8, valid_utf8};

use crate::domain::chat::message::{ChatMessage, ChatMessageView, ToolCall, message_views};
use crate::api::routes::frontend::file_name_of;
use crate::domain::chat::models::{
    HistoryEntry, HistoryEntryView, HitlOverrides, OutputFile, SkillPermissions, UploadedFile,
    history_views, names_tool,
};
use crate::domain::chat::turn::{reads_through_mcp, should_use_mcp_file_reader};
use crate::json::{json_str_field, json_string_field, nonblank_arg, nonblank_argument, opt_view};
use crate::domain::chat::builtin_tools::{
    load_skill_tool, load_skill_tool_entry, subagent_tool, subagent_tool_entry,
};
use crate::domain::chat::compaction::{
    compaction_tool_entries, public_compaction_tool_schemas, LEGACY_COMPRESS_TOOL,
};
use crate::domain::chat::tool_schema::{
    extend_tools, schema_entries_of, schema_parameters, tool_parameter, tool_schema, ToolSchema,
};
use crate::domain::session::service::{session_tool_entries, SessionService};
use crate::domain::tasks::service::{public_task_tool_schemas, task_tool_entries};
use crate::domain::hitl::models::{HitlDecisionStatus, HitlRiskLevel};
use crate::domain::hitl::policy::{
    evaluate_tool_hitl_policy, policy_outcome, HitlPolicyDecision, HitlPolicyDecisionView,
};
use crate::domain::session::todo::{any_open, TodoManager};
use crate::domain::skills::models::SkillDocument;
use crate::lists::texts;
use crate::text::{
    concat2, contains, contains_seq, decimal, has_prefix, is_blank, is_empty_text, lines,
    lines_of, owned, push_str, starts_with, str_eq, string_from_range, chars_of, take_chars, trim, trim_end,
    trim_end_seq, trim_seq, usize_to_decimal,
};

verus! {

pub const PAST_CONTEXT_TAG: &'static str = "past_context";

pub const PAST_CONTEXT_ACK: &'static str = "Noted. I'll reference this context only if relevant.";

// ---------------------------------------------------------------------------
// Skill permissions
// ---------------------------------------------------------------------------

/// Whether the skill `name` may be used: a non-blank name that no denied entry
/// names, and that an allowed entry names unless the allow list is empty.
pub open spec fn skill_permitted(
    allowed: Seq<Seq<char>>,
    denied: Seq<Seq<char>>,
    name: Seq<char>,
) -> bool {
    let n = trim_seq(name);
    n.len() > 0 && !names_tool(denied, n) && (allowed.len() == 0 || names_tool(allowed, n))
}

fn names_entry(list: &Vec<String>, name: &str) -> (b: bool)
    ensures
        b == names_tool(texts(list@), name@),
{
    let mut i: usize = 0;
    while i < list.len()
        invariant
            0 <= i <= list.len(),
            forall|j: int| 0 <= j < i ==> trim_seq(#[trigger] texts(list@)[j]) != name@,
        decreases list.len() - i,
    {
        let t = trim(list[i].as_str());
        if str_eq(t.as_str(), name) {
            assert(trim_seq(texts(list@)[i as int]) == name@);
            return true;
        }
        i += 1;
    }
    false
}

pub fn skill_allowed(name: &str, permissions: &SkillPermissions) -> (b: bool)
    ensures
        b == skill_permitted(
            texts(permissions.allowed_skills@),
            texts(permissions.denied_skills@),
            name@,
        ),
{
    let normalized = trim(name);
    if is_empty_text(normalized.as_str()) {
        return false;
    }
    if names_entry(&permissions.denied_skills, normalized.as_str()) {
        return false;
    }
    permissions.allowed_skills.len() == 0 || names_entry(
        &permissions.allowed_skills,
        normalized.as_str(),
    )
}

/// The skills that the permissions let through, in their order.
pub open spec fn permitted_skills(
    items: Seq<SkillDocument>,
    allowed: Seq<Seq<char>>,
    denied: Seq<Seq<char>>,
) -> Seq<SkillDocument>
    decreases items.len(),
{
    if items.len() == 0 {
        Seq::empty()
    } else {
        let prev = permitted_skills(items.drop_last(), allowed, denied);
        if skill_permitted(allowed, denied, items.last().name@) {
            prev.push(items.last())
        } else {
            prev
        }
    }
}

/// The skills the permissions let through are exactly those whose names
/// pass `skill_permitted`, in their order: every skill that passes is kept,
/// and none that is kept is denied.
pub proof fn lemma_permitted_skills_filter(
    items: Seq<SkillDocument>,
    allowed: Seq<Seq<char>>,
    denied: Seq<Seq<char>>,
)
    ensures
        permitted_skills(items, allowed, denied) == items.filter(
            |s: SkillDocument| skill_permitted(allowed, denied, s.name@),
        ),
        forall|k: int, j: int|
            0 <= k < permitted_skills(items, allowed, denied).len() && 0 <= j < denied.len()
                ==> trim_seq(#[trigger] denied[j]) != trim_seq(
                #[trigger] permitted_skills(items, allowed, denied)[k].name@,
            ),
        forall|i: int|
            0 <= i < items.len() && skill_permitted(allowed, denied, #[trigger] items[i].name@)
                ==> permitted_skills(items, allowed, denied).contains(items[i]),
    decreases items.len(),
{
    let pred = |s: SkillDocument| skill_permitted(allowed, denied, s.name@);
    reveal_with_fuel(Seq::filter, 1);
    if items.len() > 0 {
        lemma_permitted_skills_filter(items.drop_last(), allowed, denied);
        let prev = permitted_skills(items.drop_last(), allowed, denied);
        let out = permitted_skills(items, allowed, denied);
        assert(items.filter(pred) == if pred(items.last()) {
            items.drop_last().filter(pred).push(items.last())
        } else {
            items.drop_last().filter(pred)
        });
        assert forall|k: int, j: int| 0 <= k < out.len() && 0 <= j < denied.len() implies trim_seq(
            #[trigger] denied[j],
        ) != trim_seq(#[trigger] out[k].name@) by {
            if k < prev.len() {
                assert(out[k] == prev[k]);
            } else {
                assert(out[k] == items.last());
                if trim_seq(denied[j]) == trim_seq(items.last().name@) {
                    assert(names_tool(denied, trim_seq(items.last().name@)));
                }
            }
        }
        assert forall|i: int|
            0 <= i < items.len() && skill_permitted(allowed, denied, #[trigger] items[i].name@)
                implies out.contains(items[i]) by {
            if i < items.len() - 1 {
                assert(items.drop_last()[i] == items[i]);
                let w = choose|w: int| 0 <= w < prev.len() && prev[w] == items[i];
                if out.len() > prev.len() {
                    assert(out[w] == prev[w]);
                } else {
                    assert(out[w] == prev[w]);
                }
            } else {
                assert(out[out.len() - 1] == items[i]);
            }
        }
    } else {
        assert(items.filter(pred) =~= items);
    }
}

/// Keeps the skills that the permissions allow.
pub fn filter_skills_by_permissions(items: Vec<SkillDocument>, permissions: &SkillPermissions) -> (r:
    Vec<SkillDocument>)
    ensures
        r@ == permitted_skills(
            items@,
            texts(permissions.allowed_skills@),
            texts(permissions.denied_skills@),
        ),
        r@ == items@.filter(
            |s: SkillDocument|
                skill_permitted(
                    texts(permissions.allowed_skills@),
                    texts(permissions.denied_skills@),
                    s.name@,
                ),
        ),
        forall|k: int, j: int|
            0 <= k < r@.len() && 0 <= j < permissions.denied_skills@.len() ==> trim_seq(
                #[trigger] permissions.denied_skills@[j]@,
            ) != trim_seq(#[trigger] r@[k].name@),
{
    proof {
        lemma_permitted_skills_filter(
            items@,
            texts(permissions.allowed_skills@),
            texts(permissions.denied_skills@),
        );
        let res = permitted_skills(
            items@,
            texts(permissions.allowed_skills@),
            texts(permissions.denied_skills@),
        );
        assert forall|k: int, j: int|
            0 <= k < res.len() && 0 <= j < permissions.denied_skills@.len() implies trim_seq(
                #[trigger] permissions.denied_skills@[j]@,
            ) != trim_seq(#[trigger] res[k].name@) by {
            assert(texts(permissions.denied_skills@)[j] == permissions.denied_skills@[j]@);
        }
    }
    let ghost orig = items@;
    let ghost allowed = texts(permissions.allowed_skills@);
    let ghost denied = texts(permissions.denied_skills@);
    let n0 = items.len();
    let mut rest = items;
    assert(orig.skip(0) =~= orig);
    let mut out: Vec<SkillDocument> = Vec::new();
    let mut k: usize = 0;
    while rest.len() > 0
        invariant
            k + rest@.len() == orig.len(),
            orig.len() <= usize::MAX,
            rest@ == orig.skip(k as int),
            out@ == permitted_skills(orig.take(k as int), allowed, denied),
            allowed == texts(permissions.allowed_skills@),
            denied == texts(permissions.denied_skills@),
        decreases rest@.len(),
    {
        let item = rest.remove(0);
        assert(item == orig[k as int]);
        assert(orig.take(k + 1).drop_last() =~= orig.take(k as int));
        assert(rest@ =~= orig.skip(k + 1));
        if skill_allowed(item.name.as_str(), permissions) {
            out.push(item);
        }
        k += 1;
    }
    assert(orig.take(k as int) =~= orig);
    out
}

// ---------------------------------------------------------------------------
// Messages
// ---------------------------------------------------------------------------

pub open spec fn uploaded_file_line(f: UploadedFile) -> Seq<char> {
    "- "@ + f.original_name@ + " (路径: "@ + f.saved_path@ + ", 大小: "@ + decimal(f.size as nat)
        + " bytes"@ + match f.content_type {
        Some(t) => ", 类型: "@ + t@,
        None => Seq::empty(),
    } + ")\n"@
}

pub open spec fn uploaded_file_lines(files: Seq<UploadedFile>) -> Seq<char>
    decreases files.len(),
{
    if files.len() == 0 {
        Seq::empty()
    } else {
        uploaded_file_lines(files.drop_last()) + uploaded_file_line(files.last())
    }
}

/// The user message with a list of the uploaded files appended.
pub open spec fn message_with_uploads(message: Seq<char>, files: Seq<UploadedFile>) -> Seq<char> {
    if files.len() == 0 {
        message
    } else {
        message + "\n\n**上传的文件：**\n"@ + uploaded_file_lines(files)
    }
}

/// Appends a line per uploaded file (name, saved path, size, content type) to the
/// user's message.
pub fn append_uploaded_files(message: String, files: &[UploadedFile]) -> (r: String)
    ensures
        r@ == message_with_uploads(message@, files@),
{
    if files.len() == 0 {
        return message;
    }
    let mut content = message;
    push_str(&mut content, "\n\n**上传的文件：**\n");
    let ghost head = content@;
    let mut i: usize = 0;
    while i < files.len()
        invariant
            0 <= i <= files.len(),
            content@ == head + uploaded_file_lines(files@.take(i as int)),
        decreases files.len() - i,
    {
        let file = &files[i];
        push_str(&mut content, "- ");
        push_str(&mut content, file.original_name.as_str());
        push_str(&mut content, " (路径: ");
        push_str(&mut content, file.saved_path.as_str());
        push_str(&mut content, ", 大小: ");
        let size = usize_to_decimal(file.size);
        push_str(&mut content, size.as_str());
        push_str(&mut content, " bytes");
        match &file.content_type {
            Some(t) => {
                push_str(&mut content, ", 类型: ");
                push_str(&mut content, t.as_str());
            },
            None => {},
        }
        push_str(&mut content, ")\n");
        assert(files@.take(i + 1).drop_last() =~= files@.take(i as int));
        assert(content@ =~= head + uploaded_file_lines(files@.take(i + 1)));
        i += 1;
    }
    assert(files@.take(files.len() as int) =~= files@);
    content
}

/// The history with the new user message and the assistant's reply appended.
pub fn build_response_history(history: &[HistoryEntry], user_message: &str, assistant_reply: &str) -> (r:
    Vec<HistoryEntry>)
    ensures
        history_views(r@) == history_views(history@).push(
            HistoryEntryView { role: "user"@, content: user_message@ },
        ).push(HistoryEntryView { role: "assistant"@, content: assistant_reply@ }),
{
    let mut output: Vec<HistoryEntry> = Vec::new();
    let mut i: usize = 0;
    while i < history.len()
        invariant
            0 <= i <= history.len(),
            output@ == history@.take(i as int),
        decreases history.len() - i,
    {
        output.push(history[i].clone());
        assert(output@ =~= history@.take(i + 1));
        i += 1;
    }
    assert(history@.take(history.len() as int) =~= history@);
    let ghost base = output@;
    output.push(HistoryEntry { role: owned("user"), content: owned(user_message) });
    output.push(HistoryEntry { role: owned("assistant"), content: owned(assistant_reply) });
    assert(history_views(output@) =~= history_views(base).push(
        HistoryEntryView { role: "user"@, content: user_message@ },
    ).push(HistoryEntryView { role: "assistant"@, content: assistant_reply@ }));
    output
}

/// The reply after a new visible segment: blank segments change nothing, the
/// first visible one replaces a blank reply, later ones follow a blank line.
pub open spec fn with_reply_segment(reply: Seq<char>, segment: Seq<char>) -> Seq<char> {
    if trim_seq(segment).len() == 0 {
        reply
    } else if trim_seq(reply).len() == 0 {
        segment
    } else {
        reply + "\n\n"@ + segment
    }
}

pub fn append_reply_segment(reply: &mut String, segment: &str)
    ensures
        final(reply)@ == with_reply_segment(old(reply)@, segment@),
{
    if is_blank(segment) {
        return;
    }
    if is_blank(reply.as_str()) {
        *reply = owned(segment);
        return;
    }
    push_str(reply, "\n\n");
    push_str(reply, segment);
}

/// A subagent starts from its system prompt and the task prompt only.
pub fn build_subagent_initial_messages(system_prompt: String, prompt: &str) -> (r: Vec<ChatMessage>)
    ensures
        r@.len() == 2,
        r@[0]@.role == "system"@,
        r@[0]@.content == Some(system_prompt@),
        r@[1]@.role == "user"@,
        r@[1]@.content == Some(prompt@),
        r@[0]@.tool_calls is None && r@[1]@.tool_calls is None,
{
    let mut r: Vec<ChatMessage> = Vec::new();
    r.push(ChatMessage::system(system_prompt.as_str()));
    r.push(ChatMessage::user(prompt));
    r
}

pub open spec fn custom_instruction_block(base: Seq<char>, append: Seq<char>) -> Seq<char> {
    base
        + "\n\n<custom_agent_instruction>\nUser-configured supplemental instruction. Follow it unless it conflicts with higher-priority system constraints or tool safety rules.\n"@
        + append + "\n</custom_agent_instruction>"@
}

/// The system prompt with a user-configured instruction appended in a wrapped
/// block; a blank or absent instruction leaves it as it is.
pub fn append_system_instruction(base_system: String, system_append: Option<&str>) -> (r: String)
    ensures
        r@ == match system_append {
            Some(a) => if trim_seq(a@).len() > 0 {
                custom_instruction_block(base_system@, trim_seq(a@))
            } else {
                base_system@
            },
            None => base_system@,
        },
{
    let append = match system_append {
        Some(a) => trim(a),
        None => return base_system,
    };
    if is_empty_text(append.as_str()) {
        return base_system;
    }
    let mut r = base_system;
    push_str(
        &mut r,
        "\n\n<custom_agent_instruction>\nUser-configured supplemental instruction. Follow it unless it conflicts with higher-priority system constraints or tool safety rules.\n",
    );
    push_str(&mut r, append.as_str());
    push_str(&mut r, "\n</custom_agent_instruction>");
    r
}

/// The request's iteration limit, else the configured one.
pub fn resolve_max_iterations(max_iterations: Option<usize>, default_max_iterations: usize) -> (r:
    usize)
    ensures
        r == match max_iterations {
            Some(m) => m,
            None => default_max_iterations,
        },
{
    match max_iterations {
        Some(m) => m,
        None => default_max_iterations,
    }
}

pub fn max_iterations_from_request(
    max_iterations: Option<usize>,
    default_max_iterations: usize,
) -> (r: usize)
    ensures
        r == match max_iterations {
            Some(m) => m,
            None => default_max_iterations,
        },
{
    resolve_max_iterations(max_iterations, default_max_iterations)
}

pub open spec fn empty_stream_reply_text(finish_reason: Seq<char>, max_iterations: nat) -> Seq<char> {
    if finish_reason == "max_iterations"@ {
        "模型在 "@ + decimal(max_iterations)
            + " 轮工具/推理后仍未生成可展示内容。请重试，或调高当前最大轮次设置（前端 Max Iterations / 后端 AGENT_MAX_ITERATIONS）。"@
    } else {
        "模型返回了空白流式结果（finish_reason: "@ + finish_reason
            + "）。系统已尝试补救生成最终答案，但仍未得到可展示内容，请重试。"@
    }
}

/// The error shown when a streamed run ended without visible text.
pub fn build_empty_stream_reply_error(finish_reason: &str, max_iterations: usize) -> (r: String)
    ensures
        r@ == empty_stream_reply_text(finish_reason@, max_iterations as nat),
{
    if str_eq(finish_reason, "max_iterations") {
        let n = usize_to_decimal(max_iterations);
        let mut r = concat2("模型在 ", n.as_str());
        push_str(
            &mut r,
            " 轮工具/推理后仍未生成可展示内容。请重试，或调高当前最大轮次设置（前端 Max Iterations / 后端 AGENT_MAX_ITERATIONS）。",
        );
        return r;
    }
    let mut r = concat2("模型返回了空白流式结果（finish_reason: ", finish_reason);
    push_str(&mut r, "）。系统已尝试补救生成最终答案，但仍未得到可展示内容，请重试。");
    r
}

// ---------------------------------------------------------------------------
// Memory-mode history cleaning
// ---------------------------------------------------------------------------

/// A user message that carries context injected from another session.
pub open spec fn is_injection(e: HistoryEntryView) -> bool {
    e.role == "user"@ && contains_seq(e.content, "<past_context>"@) && contains_seq(
        e.content,
        "</past_context>"@,
    )
}

pub open spec fn is_injection_ack(e: HistoryEntryView) -> bool {
    e.role == "assistant"@ && e.content == PAST_CONTEXT_ACK@
}

/// Scan state: the last entry was an injection, and the entries kept so far.
pub open spec fn strip_scan(h: Seq<HistoryEntryView>) -> (bool, Seq<HistoryEntryView>)
    decreases h.len(),
{
    if h.len() == 0 {
        (false, Seq::empty())
    } else {
        let (skip_ack, kept) = strip_scan(h.drop_last());
        let e = h.last();
        if is_injection(e) {
            (true, kept)
        } else if skip_ack && is_injection_ack(e) {
            (false, kept)
        } else {
            (false, kept.push(e))
        }
    }
}

/// The history without injected cross-session context and the acknowledgement
/// that directly follows each injection.
pub open spec fn stripped_history(h: Seq<HistoryEntryView>) -> Seq<HistoryEntryView> {
    strip_scan(h).1
}

/// Removes injected cross-session context (and its acknowledgement) from a
/// memory-mode history.
pub fn strip_cross_session_injections(history: Vec<HistoryEntry>) -> (r: Vec<HistoryEntry>)
    ensures
        history_views(r@) == stripped_history(history_views(history@)),
{
    let ghost h = history_views(history@);
    let n0 = history.len();
    assert(h.skip(0) =~= h);
    let open_tag = concat2("<", PAST_CONTEXT_TAG);
    let open_tag = concat2(open_tag.as_str(), ">");
    let close_tag = concat2("</", PAST_CONTEXT_TAG);
    let close_tag = concat2(close_tag.as_str(), ">");
    proof {
        reveal_strlit("past_context");
        reveal_strlit("<");
        reveal_strlit(">");
        reveal_strlit("</");
        reveal_strlit("<past_context>");
        reveal_strlit("</past_context>");
        assert(open_tag@ =~= "<past_context>"@);
        assert(close_tag@ =~= "</past_context>"@);
    }
    let mut rest = history;
    let mut cleaned: Vec<HistoryEntry> = Vec::new();
    let mut skip_ack = false;
    let mut k: usize = 0;
    while rest.len() > 0
        invariant
            k + rest@.len() == h.len(),
            h.len() <= usize::MAX,
            history_views(rest@) == h.skip(k as int),
            (skip_ack, history_views(cleaned@)) == strip_scan(h.take(k as int)),
            open_tag@ == "<past_context>"@,
            close_tag@ == "</past_context>"@,
        decreases rest@.len(),
    {
        let ghost old_rest = rest@;
        let entry = rest.remove(0);
        assert(rest@ =~= old_rest.subrange(1, old_rest.len() as int));
        assert(entry@ == h[k as int]) by {
            assert(history_views(old_rest)[0] == entry@);
            assert(h.skip(k as int)[0] == h[k as int]);
        }
        assert(h.take(k + 1).drop_last() =~= h.take(k as int));
        assert(history_views(rest@) =~= h.skip(k + 1)) by {
            assert(history_views(rest@) =~= history_views(old_rest).subrange(
                1,
                old_rest.len() as int,
            ));
        }
        let injected = str_eq(entry.role.as_str(), "user") && contains(
            entry.content.as_str(),
            open_tag.as_str(),
        ) && contains(entry.content.as_str(), close_tag.as_str());
        if injected {
            skip_ack = true;
        } else if skip_ack && str_eq(entry.role.as_str(), "assistant") && str_eq(
            entry.content.as_str(),
            PAST_CONTEXT_ACK,
        ) {
            skip_ack = false;
        } else {
            skip_ack = false;
            let ghost before = history_views(cleaned@);
            cleaned.push(entry);
            assert(history_views(cleaned@) =~= before.push(h[k as int]));
        }
        k += 1;
    }
    assert(h.take(k as int) =~= h);
    cleaned
}

/// No injected user message survives the cleaning, and every entry that remains
/// comes from the original history.
pub proof fn lemma_stripped_history_has_no_injection(h: Seq<HistoryEntryView>)
    ensures
        forall|i: int|
            0 <= i < stripped_history(h).len() ==> !is_injection(#[trigger] stripped_history(h)[i]),
        forall|i: int|
            0 <= i < stripped_history(h).len() ==> h.contains(#[trigger] stripped_history(h)[i]),
        stripped_history(h).len() <= h.len(),
    decreases h.len(),
{
    if h.len() > 0 {
        let d = h.drop_last();
        lemma_stripped_history_has_no_injection(d);
        let prev = stripped_history(d);
        assert forall|i: int| 0 <= i < prev.len() implies h.contains(#[trigger] prev[i]) by {
            assert(d.contains(prev[i]));
            let j = choose|j: int| 0 <= j < d.len() && d[j] == prev[i];
            assert(h[j] == prev[i]);
        }
        assert(h[h.len() - 1] == h.last());
    }
}

// ---------------------------------------------------------------------------
// Server-sent event frames
// ---------------------------------------------------------------------------

/// The `data:` payloads of each line of `lines`, trimmed.
pub open spec fn sse_payloads(ls: Seq<Seq<char>>) -> Seq<Seq<char>>
    decreases ls.len(),
{
    if ls.len() == 0 {
        Seq::empty()
    } else {
        let prev = sse_payloads(ls.drop_last());
        let l = ls.last();
        if has_prefix(l, "data:"@) {
            prev.push(trim_seq(l.skip(5)))
        } else {
            prev
        }
    }
}

/// The payloads of the `data:` lines of one event frame.
pub fn parse_sse_frame(frame: &str) -> (r: Vec<String>)
    ensures
        texts(r@) == sse_payloads(lines_of(frame@)),
{
    let ls = lines(frame);
    let ghost lv = ls@.map_values(|l: String| l@);
    let mut payloads: Vec<String> = Vec::new();
    let mut i: usize = 0;
    proof {
        reveal_strlit("data:");
    }
    while i < ls.len()
        invariant
            0 <= i <= ls.len(),
            lv == ls@.map_values(|l: String| l@),
            lv == lines_of(frame@),
            texts(payloads@) == sse_payloads(lv.take(i as int)),
            "data:"@.len() == 5,
        decreases ls.len() - i,
    {
        let line = &ls[i];
        assert(lv.take(i + 1).drop_last() =~= lv.take(i as int));
        assert(lv[i as int] == line@);
        if crate::text::starts_with(line.as_str(), "data:") {
            let v = chars_of(line.as_str());
            let data = string_from_range(&v, 5, v.len());
            let t = trim(data.as_str());
            assert(line@.skip(5) =~= v@.subrange(5, v@.len() as int));
            let ghost before = texts(payloads@);
            payloads.push(t);
            assert(texts(payloads@) =~= before.push(trim_seq(line@.skip(5))));
        }
        i += 1;
    }
    assert(lv.take(ls.len() as int) =~= lv);
    payloads
}

/// `text`, or its first `limit` characters (trailing white space removed) followed
/// by `...[truncated]` when it is longer.
pub open spec fn preview_text(text: Seq<char>, limit: nat) -> Seq<char> {
    if text.len() <= limit {
        text
    } else {
        trim_end_seq(text.take(limit as int)) + "...[truncated]"@
    }
}

pub fn truncate_for_preview(text: &str, limit: usize) -> (r: String)
    ensures
        r@ == preview_text(text@, limit as nat),
{
    let v = chars_of(text);
    if v.len() <= limit {
        return string_from_chars_ref(&v);
    }
    let head = take_chars(text, limit);
    let t = trim_end(head.as_str());
    concat2(t.as_str(), "...[truncated]")
}

fn string_from_chars_ref(v: &Vec<char>) -> (s: String)
    ensures
        s@ == v@,
{
    crate::text::string_from_chars(v)
}

/// Whether `p` occurs in the bytes `b` at position `i`.
pub open spec fn bytes_at(b: Seq<u8>, p: Seq<u8>, i: int) -> bool {
    0 <= i && i + p.len() <= b.len() && b.subrange(i, i + p.len()) == p
}

/// `i` is the first position of `p` in `b`.
pub open spec fn first_bytes_at(b: Seq<u8>, p: Seq<u8>, i: int) -> bool {
    bytes_at(b, p, i) && forall|j: int| 0 <= j < i ==> !bytes_at(b, p, j)
}

pub open spec fn lf_lf() -> Seq<u8> {
    seq![10u8, 10u8]
}

pub open spec fn crlf_crlf() -> Seq<u8> {
    seq![13u8, 10u8, 13u8, 10u8]
}

/// The end of the first event frame: the first blank line `\n\n`, or, where the
/// buffer holds none, the first `\r\n\r\n`; as the frame's length and the
/// delimiter's length.
pub open spec fn frame_delimiter(b: Seq<u8>) -> Option<(int, int)> {
    if exists|i: int| bytes_at(b, lf_lf(), i) {
        Some((choose|i: int| first_bytes_at(b, lf_lf(), i), 2))
    } else if exists|i: int| bytes_at(b, crlf_crlf(), i) {
        Some((choose|i: int| first_bytes_at(b, crlf_crlf(), i), 4))
    } else {
        None
    }
}

fn bytes_at_exec(b: &[u8], p: &[u8], i: usize) -> (r: bool)
    ensures
        r == bytes_at(b@, p@, i as int),
{
    if i > b.len() || p.len() > b.len() - i {
        return false;
    }
    let mut k: usize = 0;
    while k < p.len()
        invariant
            i + p.len() <= b.len(),
            0 <= k <= p.len(),
            forall|m: int| 0 <= m < k ==> b@[i + m] == p@[m],
        decreases p.len() - k,
    {
        if b[i + k] != p[k] {
            assert(b@.subrange(i as int, i + p.len())[k as int] != p@[k as int]);
            return false;
        }
        k += 1;
    }
    assert(b@.subrange(i as int, i + p.len()) =~= p@);
    true
}

fn find_bytes(b: &[u8], p: &[u8]) -> (r: Option<usize>)
    requires
        p@.len() > 0,
    ensures
        match r {
            Some(i) => first_bytes_at(b@, p@, i as int),
            None => forall|i: int| !bytes_at(b@, p@, i),
        },
{
    let mut i: usize = 0;
    while i < b.len()
        invariant
            0 <= i <= b.len(),
            p@.len() > 0,
            forall|j: int| 0 <= j < i ==> !bytes_at(b@, p@, j),
        decreases b.len() - i,
    {
        if bytes_at_exec(b, p, i) {
            return Some(i);
        }
        i += 1;
    }
    None
}

proof fn lemma_first_unique(b: Seq<u8>, p: Seq<u8>, i: int)
    requires
        first_bytes_at(b, p, i),
    ensures
        forall|j: int| first_bytes_at(b, p, j) ==> j == i,
{
    assert forall|j: int| first_bytes_at(b, p, j) implies j == i by {
        if j < i {
            assert(!bytes_at(b, p, j));
        } else if j > i {
            assert(!bytes_at(b, p, i));
        }
    }
}

/// Finds the end of the first complete event frame in `buffer`.
pub fn find_sse_frame_delimiter(buffer: &[u8]) -> (r: Option<(usize, usize)>)
    ensures
        match r {
            Some((s, l)) => frame_delimiter(buffer@) == Some((s as int, l as int)) && ((l == 2
                && first_bytes_at(buffer@, lf_lf(), s as int)) || (l == 4 && first_bytes_at(
                buffer@,
                crlf_crlf(),
                s as int,
            ))),
            None => frame_delimiter(buffer@) is None,
        },
{
    let lf: [u8; 2] = [10u8, 10u8];
    let crlf: [u8; 4] = [13u8, 10u8, 13u8, 10u8];
    assert(lf@ =~= lf_lf());
    assert(crlf@ =~= crlf_crlf());
    match find_bytes(buffer, lf.as_slice()) {
        Some(i) => {
            proof {
                lemma_first_unique(buffer@, lf_lf(), i as int);
            }
            Some((i, 2))
        },
        None => match find_bytes(buffer, crlf.as_slice()) {
            Some(i) => {
                proof {
                    lemma_first_unique(buffer@, crlf_crlf(), i as int);
                }
                Some((i, 4))
            },
            None => None,
        },
    }
}

/// `String::from_utf8(bytes).ok()`: the text the bytes encode, if they are valid UTF-8.
#[verifier::external_body]
fn string_from_utf8(bytes: Vec<u8>) -> (r: Option<String>)
    ensures
        r is Some <==> valid_utf8(bytes@),
        r matches Some(s) ==> s@ == decode_utf8(bytes@),
{
    String::from_utf8(bytes).ok()
}

/// The first frame could not be read as UTF-8 text.
#[derive(Debug, Clone, PartialEq, Eq)]
pub struct InvalidUtf8Frame;

impl InvalidUtf8Frame {
    pub fn message(&self) -> (m: String)
        ensures
            m@ == "llm stream returned invalid utf-8"@,
    {
        owned("llm stream returned invalid utf-8")
    }
}

/// Takes the first complete event frame off the front of `buffer`: without a
/// complete frame the buffer is left as it is; otherwise the frame and its
/// delimiter are removed and the frame's text is returned, or an error when the
/// frame is not valid UTF-8.
pub fn next_sse_frame(buffer: &mut Vec<u8>) -> (r: Result<Option<String>, InvalidUtf8Frame>)
    ensures
        match frame_delimiter(old(buffer)@) {
            None => r == Ok::<Option<String>, InvalidUtf8Frame>(None) && final(buffer)@ == old(
                buffer,
            )@,
            Some((start, len)) => {
                &&& final(buffer)@ == old(buffer)@.skip(start + len)
                &&& (r is Ok <==> valid_utf8(old(buffer)@.take(start)))
                &&& r is Ok ==> (r->Ok_0 matches Some(f) && f@ == decode_utf8(
                    old(buffer)@.take(start),
                ))
            },
        },
{
    let found = find_sse_frame_delimiter(buffer.as_slice());
    let (delimiter_start, delimiter_len) = match found {
        Some(p) => p,
        None => return Ok(None),
    };
    let ghost orig = buffer@;
    let n0 = buffer.len();
    assert(delimiter_start + delimiter_len <= n0) by {
        if delimiter_len == 2 {
            assert(bytes_at(orig, lf_lf(), delimiter_start as int));
        } else {
            assert(bytes_at(orig, crlf_crlf(), delimiter_start as int));
        }
    }
    let mut rest = buffer.split_off(delimiter_start + delimiter_len);
    std::mem::swap(buffer, &mut rest);
    let mut frame_bytes = rest;
    frame_bytes.truncate(delimiter_start);
    assert(frame_bytes@ =~= orig.take(delimiter_start as int));
    assert(buffer@ =~= orig.skip(delimiter_start + delimiter_len));
    match string_from_utf8(frame_bytes) {
        Some(frame) => Ok(Some(frame)),
        None => Err(InvalidUtf8Frame),
    }
}

/// What a frame taken off the buffer and what is left make up the old buffer
/// again, with the delimiter between them; the frame holds no earlier blank line.
pub proof fn lemma_frame_split(b: Seq<u8>)
    requires
        frame_delimiter(b) is Some,
    ensures
        ({
            let (s, l) = frame_delimiter(b)->0;
            &&& 0 <= s && s + l <= b.len()
            &&& b == b.take(s) + b.subrange(s, s + l) + b.skip(s + l)
            &&& (l == 2 ==> b.subrange(s, s + l) == lf_lf())
            &&& (l == 4 ==> b.subrange(s, s + l) == crlf_crlf() && forall|i: int|
                !bytes_at(b, lf_lf(), i))
            &&& forall|i: int| 0 <= i && i + 2 <= s ==> !bytes_at(b, lf_lf(), i)
        }),
{
    let (s, l) = frame_delimiter(b)->0;
    if exists|i: int| bytes_at(b, lf_lf(), i) {
        let w = choose|i: int| bytes_at(b, lf_lf(), i);
        lemma_first_exists(b, lf_lf(), w);
        assert(first_bytes_at(b, lf_lf(), s));
    } else {
        let w = choose|i: int| bytes_at(b, crlf_crlf(), i);
        lemma_first_exists(b, crlf_crlf(), w);
        assert(first_bytes_at(b, crlf_crlf(), s));
    }
    assert(b =~= b.take(s) + b.subrange(s, s + l) + b.skip(s + l));
}

proof fn lemma_first_exists(b: Seq<u8>, p: Seq<u8>, w: int)
    requires
        bytes_at(b, p, w),
    ensures
        exists|i: int| first_bytes_at(b, p, i),
    decreases w,
{
    if exists|j: int| 0 <= j < w && bytes_at(b, p, j) {
        let j = choose|j: int| 0 <= j < w && bytes_at(b, p, j);
        lemma_first_exists(b, p, j);
    } else {
        assert(first_bytes_at(b, p, w));
    }
}


// ---------------------------------------------------------------------------
// Human-in-the-loop approval
// ---------------------------------------------------------------------------

/// What the human-in-the-loop check does with a tool call before anyone is asked.
#[derive(Debug, Clone, PartialEq, Eq)]
pub enum HitlGateStep {
    /// The call runs.
    Proceed,
    /// The call does not run; the text goes back to the model.
    Block(String),
    /// A human must approve the call first.
    AskApproval { risk_level: HitlRiskLevel },
}

/// The first step of the approval check for a tool call: the policy decides; a call
/// that needs approval is blocked when there is no session, no active run or
/// no stream to ask through.
pub open spec fn gate_step(
    decision: HitlPolicyDecisionView,
    tool_name: Seq<char>,
    has_session: bool,
    has_generation: bool,
    has_sender: bool,
) -> Result<Option<HitlRiskLevel>, Seq<char>> {
    match decision {
        HitlPolicyDecisionView::Allow => Ok(None),
        HitlPolicyDecisionView::Reject { reason } => Err(
            "HITL policy rejected tool call "@ + tool_name + ": "@ + reason,
        ),
        HitlPolicyDecisionView::RequireApproval { risk_level, .. } => if !has_session {
            Err(
                "HITL approval required for "@ + tool_name
                    + ", but no session is available to route the approval."@,
            )
        } else if !has_generation {
            Err(
                "HITL approval required for "@ + tool_name
                    + ", but no active run generation is available."@,
            )
        } else if !has_sender {
            Err(
                "HITL approval required for "@ + tool_name
                    + ". Please rerun in streaming mode to approve or disable HITL for this tool."@,
            )
        } else {
            Ok(Some(risk_level))
        },
    }
}

/// The first step of the approval check for a tool call, as `gate_step` states over
/// the policy's decision.
pub fn hitl_gate_step(
    overrides: &HitlOverrides,
    tool_name: &str,
    has_session: bool,
    has_generation: bool,
    has_sender: bool,
) -> (r: HitlGateStep)
    ensures
        match gate_step(
            policy_outcome(
                overrides.enabled,
                overrides.default_action,
                overrides.rules@,
                tool_name@,
            ),
            tool_name@,
            has_session,
            has_generation,
            has_sender,
        ) {
            Ok(None) => r == HitlGateStep::Proceed,
            Ok(Some(level)) => r == HitlGateStep::AskApproval { risk_level: level },
            Err(text) => r matches HitlGateStep::Block(t) && t@ == text,
        },
{
    let decision = evaluate_tool_hitl_policy(
        overrides.enabled,
        &overrides.default_action,
        overrides.rules.as_slice(),
        tool_name,
    );
    match decision {
        HitlPolicyDecision::Allow => HitlGateStep::Proceed,
        HitlPolicyDecision::Reject { reason } => {
            let head = concat2("HITL policy rejected tool call ", tool_name);
            let head = concat2(head.as_str(), ": ");
            HitlGateStep::Block(concat2(head.as_str(), reason.as_str()))
        },
        HitlPolicyDecision::RequireApproval { risk_level, .. } => {
            let head = concat2("HITL approval required for ", tool_name);
            if !has_session {
                HitlGateStep::Block(
                    concat2(head.as_str(), ", but no session is available to route the approval."),
                )
            } else if !has_generation {
                HitlGateStep::Block(
                    concat2(head.as_str(), ", but no active run generation is available."),
                )
            } else if !has_sender {
                HitlGateStep::Block(
                    concat2(
                        head.as_str(),
                        ". Please rerun in streaming mode to approve or disable HITL for this tool.",
                    ),
                )
            } else {
                HitlGateStep::AskApproval { risk_level }
            }
        },
    }
}

/// What the model is told when an approval could not be asked because the
/// client went away.
pub fn hitl_disconnected_message(tool_name: &str) -> (m: String)
    ensures
        m@ == "HITL approval required for "@ + tool_name@ + ", but the client disconnected."@,
{
    let head = concat2("HITL approval required for ", tool_name);
    concat2(head.as_str(), ", but the client disconnected.")
}

/// What the model is told when the approval request could not be made.
pub fn hitl_request_failed_message(error: &str) -> (m: String)
    ensures
        m@ == "HITL request failed: "@ + error@,
{
    concat2("HITL request failed: ", error)
}

/// What comes of a human's answer: approved and modified calls run (`None`);
/// rejected, expired and pending ones do not, with the reason.
pub open spec fn resolution_outcome(
    tool_name: Seq<char>,
    status: HitlDecisionStatus,
    resolved_by: Seq<char>,
    note: Option<Seq<char>>,
) -> Option<Seq<char>> {
    match status {
        HitlDecisionStatus::Approved => None,
        HitlDecisionStatus::Modified => None,
        HitlDecisionStatus::Rejected => Some(
            "Tool call "@ + tool_name + " was rejected by human operator "@ + resolved_by + match note {
                Some(n) => if trim_seq(n).len() > 0 {
                    ": "@ + n
                } else {
                    Seq::empty()
                },
                None => Seq::empty(),
            } + "."@,
        ),
        HitlDecisionStatus::Expired => Some(
            "Tool call "@ + tool_name + " was not executed because HITL approval timed out."@,
        ),
        HitlDecisionStatus::Pending => Some(
            "Tool call "@ + tool_name + " is still pending HITL approval."@,
        ),
    }
}

/// What comes of a human's answer, as `resolution_outcome` states.
pub fn hitl_resolution_outcome(
    tool_name: &str,
    status: HitlDecisionStatus,
    resolved_by: &str,
    note: Option<&str>,
) -> (r: Option<String>)
    ensures
        match resolution_outcome(
            tool_name@,
            status,
            resolved_by@,
            match note {
                Some(n) => Some(n@),
                None => None,
            },
        ) {
            Some(t) => r matches Some(m) && m@ == t,
            None => r is None,
        },
{
    match status {
        HitlDecisionStatus::Approved => None,
        HitlDecisionStatus::Modified => None,
        HitlDecisionStatus::Rejected => {
            let mut m = concat2("Tool call ", tool_name);
            push_str(&mut m, " was rejected by human operator ");
            push_str(&mut m, resolved_by);
            match note {
                Some(n) => {
                    if !is_blank(n) {
                        push_str(&mut m, ": ");
                        push_str(&mut m, n);
                    }
                },
                None => {},
            }
            push_str(&mut m, ".");
            Some(m)
        },
        HitlDecisionStatus::Expired => {
            let m = concat2("Tool call ", tool_name);
            Some(concat2(m.as_str(), " was not executed because HITL approval timed out."))
        },
        HitlDecisionStatus::Pending => {
            let m = concat2("Tool call ", tool_name);
            Some(concat2(m.as_str(), " is still pending HITL approval."))
        },
    }
}

// ---------------------------------------------------------------------------
// Todo reminder and steering
// ---------------------------------------------------------------------------

/// Some call of the round is a `TodoWrite`.
pub open spec fn used_todo(calls: Seq<ToolCall>) -> bool {
    exists|i: int| 0 <= i < calls.len() && (#[trigger] calls[i]).function.name@ == "TodoWrite"@
}

/// After a round of tool calls: with a session's todo list, the count of
/// rounds without `TodoWrite` goes back to zero when the round used it and
/// up by one (held at `usize::MAX`) otherwise; from three such rounds with
/// open items, the reminder and its acknowledgement are appended. Without a
/// todo list nothing changes.
pub fn apply_todo_reminder(
    messages: &mut Vec<ChatMessage>,
    todo: Option<&TodoManager>,
    tool_calls: &Vec<ToolCall>,
    rounds_without_todo: &mut usize,
    reminder_user: &str,
    reminder_ack: &str,
)
    ensures
        match todo {
            None => final(messages)@ == old(messages)@ && *final(rounds_without_todo) == *old(
                rounds_without_todo,
            ),
            Some(t) => {
                &&& *final(rounds_without_todo) == if used_todo(tool_calls@) {
                    0
                } else if *old(rounds_without_todo) == usize::MAX {
                    usize::MAX
                } else {
                    (*old(rounds_without_todo) + 1) as usize
                }
                &&& if any_open(t@) && *final(rounds_without_todo) >= 3 {
                    message_views(final(messages)@) == message_views(old(messages)@).push(
                        ChatMessage::user_view(reminder_user@),
                    ).push(ChatMessage::assistant_view(reminder_ack@))
                } else {
                    final(messages)@ == old(messages)@
                }
            },
        },
{
    let t = match todo {
        Some(t) => t,
        None => {
            return;
        },
    };
    let mut used = false;
    let mut i: usize = 0;
    while i < tool_calls.len()
        invariant
            0 <= i <= tool_calls.len(),
            used <==> exists|j: int|
                0 <= j < i && (#[trigger] tool_calls@[j]).function.name@ == "TodoWrite"@,
        decreases tool_calls.len() - i,
    {
        if str_eq(tool_calls[i].function.name.as_str(), "TodoWrite") {
            used = true;
        }
        i += 1;
    }
    *rounds_without_todo = if used {
        0
    } else {
        rounds_without_todo.saturating_add(1)
    };
    if t.has_open_items() && *rounds_without_todo >= 3 {
        let ghost before = message_views(messages@);
        messages.push(ChatMessage::user(reminder_user));
        messages.push(ChatMessage::assistant(Some(owned(reminder_ack)), Vec::new()));
        assert(message_views(messages@) =~= before.push(ChatMessage::user_view(reminder_user@)).push(
            ChatMessage::assistant_view(reminder_ack@),
        ));
    }
}

pub const DEFAULT_STEERING_PREVIEW: &'static str = "收到新的 steering 消息";

/// The preview of a steering batch: the last message's trimmed content when
/// it is not blank, a fixed notice otherwise.
pub fn steering_preview(last_content: Option<&str>) -> (r: String)
    ensures
        r@ == match last_content {
            Some(c) => if trim_seq(c@).len() > 0 {
                trim_seq(c@)
            } else {
                DEFAULT_STEERING_PREVIEW@
            },
            None => DEFAULT_STEERING_PREVIEW@,
        },
{
    match last_content {
        Some(c) => {
            let t = trim(c);
            if is_empty_text(t.as_str()) {
                owned(DEFAULT_STEERING_PREVIEW)
            } else {
                t
            }
        },
        None => owned(DEFAULT_STEERING_PREVIEW),
    }
}

/// The names of the tool calls a steering interrupt skips, in order.
pub fn skipped_tool_names(remaining: Option<&Vec<ToolCall>>) -> (r: Vec<String>)
    ensures
        match remaining {
            Some(calls) => texts(r@) == calls@.map_values(|c: ToolCall| c.function.name@),
            None => r@.len() == 0,
        },
{
    let mut r: Vec<String> = Vec::new();
    match remaining {
        Some(calls) => {
            let mut i: usize = 0;
            while i < calls.len()
                invariant
                    0 <= i <= calls.len(),
                    r@.len() == i,
                    forall|k: int| 0 <= k < i ==> (#[trigger] r@[k])@ == calls@[k].function.name@,
                decreases calls.len() - i,
            {
                r.push(owned(calls[i].function.name.as_str()));
                i += 1;
            }
            assert(texts(r@) =~= calls@.map_values(|c: ToolCall| c.function.name@));
        },
        None => {},
    }
    r
}

/// A block of inbox messages for the model: the JSON of the messages between
/// `<tag>` and `</tag>`.
pub fn render_inbox_block(tag: &str, items_json: &str) -> (r: String)
    ensures
        r@ == "<"@ + tag@ + ">"@ + items_json@ + "</"@ + tag@ + ">"@,
{
    let mut r = concat2("<", tag);
    push_str(&mut r, ">");
    push_str(&mut r, items_json);
    push_str(&mut r, "</");
    push_str(&mut r, tag);
    push_str(&mut r, ">");
    r
}

/// Appends a steering interrupt to the conversation: the rendered steering
/// block as a user message, then the acknowledgement.
pub fn apply_steering_messages(messages: &mut Vec<ChatMessage>, rendered: &str, ack: &str)
    ensures
        message_views(final(messages)@) == message_views(old(messages)@).push(
            ChatMessage::user_view(rendered@),
        ).push(ChatMessage::assistant_view(ack@)),
{
    let ghost before = message_views(messages@);
    messages.push(ChatMessage::user(rendered));
    messages.push(ChatMessage::assistant(Some(owned(ack)), Vec::new()));
    assert(message_views(messages@) =~= before.push(ChatMessage::user_view(rendered@)).push(
        ChatMessage::assistant_view(ack@),
    ));
}


// ---------------------------------------------------------------------------
// Output files named in a reply
// ---------------------------------------------------------------------------

/// What counts as a mention of an output file: a run of characters other than
/// white space, quotes, `，` and `。` that ends in `.docx`, `.doc`, `.md`,
/// `.xlsx`, `.xls` or `.csv`, captured as group 1.
pub const OUTPUT_FILE_PATTERN: &'static str = r#"([^\s'"，。]+\.(?:docx|doc|md|xlsx|xls|csv))"#;

/// For each match of the regular expression `pattern` in `text`, in order,
/// the text of its group 1 if that group took part (`regex::Regex::new`, then
/// `captures_iter` and `get(1)`); `None` when `pattern` is no valid regular
/// expression.
pub uninterp spec fn regex_group_matches(pattern: Seq<char>, text: Seq<char>) -> Option<
    Seq<Option<Seq<char>>>,
>;

/// Runs the regular expression `pattern` over `text` with the `regex` crate
/// and gives, for each match in order, the text of its group 1 where there is
/// one. The contract only names the result.
#[verifier::external_body]
fn regex_first_groups(pattern: &str, text: &str) -> (r: Option<Vec<Option<String>>>)
    ensures
        match r {
            None => regex_group_matches(pattern@, text@) is None,
            Some(v) => regex_group_matches(pattern@, text@) == Some(
                v@.map_values(|o: Option<String>| opt_view(o)),
            ),
        },
{
    let re = regex::Regex::new(pattern).ok()?;
    Some(re.captures_iter(text).map(|c| c.get(1).map(|m| m.as_str().to_string())).collect())
}

/// The groups that took part, in order.
pub open spec fn present_groups(ms: Seq<Option<Seq<char>>>) -> Seq<Seq<char>>
    decreases ms.len(),
{
    if ms.len() == 0 {
        Seq::empty()
    } else {
        match ms.last() {
            Some(g) => present_groups(ms.drop_last()).push(g),
            None => present_groups(ms.drop_last()),
        }
    }
}

/// The paths of output files that a reply mentions: the text of each match
/// of `OUTPUT_FILE_PATTERN`, in order.
pub open spec fn output_file_mentions(reply: Seq<char>) -> Seq<Seq<char>> {
    match regex_group_matches(OUTPUT_FILE_PATTERN@, reply) {
        Some(ms) => present_groups(ms),
        None => Seq::empty(),
    }
}

/// The output file paths a reply mentions, in order.
pub fn output_file_candidates(reply: &str) -> (r: Vec<String>)
    ensures
        texts(r@) == output_file_mentions(reply@),
{
    let found = regex_first_groups(OUTPUT_FILE_PATTERN, reply);
    let mut r: Vec<String> = Vec::new();
    match found {
        None => {
            assert(texts(r@) =~= Seq::<Seq<char>>::empty());
            r
        },
        Some(ms) => {
            let ghost mv = ms@.map_values(|o: Option<String>| opt_view(o));
            let mut i: usize = 0;
            assert(mv.take(0) =~= Seq::<Option<Seq<char>>>::empty());
            assert(texts(r@) =~= Seq::<Seq<char>>::empty());
            while i < ms.len()
                invariant
                    0 <= i <= ms.len(),
                    mv == ms@.map_values(|o: Option<String>| opt_view(o)),
                    texts(r@) == present_groups(mv.take(i as int)),
                decreases ms.len() - i,
            {
                assert(mv.take(i + 1).drop_last() =~= mv.take(i as int));
                assert(mv.take(i + 1).last() == opt_view(ms@[i as int]));
                match &ms[i] {
                    Some(g) => {
                        let ghost before = texts(r@);
                        r.push(owned(g.as_str()));
                        assert(texts(r@) =~= before.push(g@));
                    },
                    None => {},
                }
                i += 1;
            }
            assert(mv.take(ms.len() as int) =~= mv);
            r
        },
    }
}

/// The output files of a reply from the mentions that resolved to files
/// under the outputs directory, each given as its canonical path and the
/// text that mentioned it: one file per canonical path, first mention kept,
/// named by the path's last component (or the mention when it has none).
pub open spec fn output_files_of(found: Seq<(Seq<char>, Seq<char>)>) -> Seq<(Seq<char>, Seq<char>)>
    decreases found.len(),
{
    if found.len() == 0 {
        Seq::empty()
    } else {
        let prev = output_files_of(found.drop_last());
        let (canonical, raw) = found.last();
        if exists|i: int| 0 <= i < prev.len() && prev[i].1 == canonical {
            prev
        } else {
            prev.push(
                (
                    match file_name_of(canonical) {
                        Some(n) => n,
                        None => raw,
                    },
                    canonical,
                ),
            )
        }
    }
}

pub open spec fn output_file_views(v: Seq<OutputFile>) -> Seq<(Seq<char>, Seq<char>)> {
    v.map_values(|f: OutputFile| (f.name@, f.path@))
}

/// The output files of a reply, as `output_files_of` states.
pub fn collect_output_files(found: &Vec<(String, String)>) -> (r: Vec<OutputFile>)
    ensures
        output_file_views(r@) == output_files_of(found@.map_values(|e: (String, String)| (e.0@, e.1@))),
{
    let ghost all = found@.map_values(|e: (String, String)| (e.0@, e.1@));
    let mut r: Vec<OutputFile> = Vec::new();
    let mut i: usize = 0;
    assert(all.take(0) =~= Seq::<(Seq<char>, Seq<char>)>::empty());
    while i < found.len()
        invariant
            0 <= i <= found.len(),
            all == found@.map_values(|e: (String, String)| (e.0@, e.1@)),
            output_file_views(r@) == output_files_of(all.take(i as int)),
        decreases found.len() - i,
    {
        let ghost pre = all.take(i + 1);
        assert(pre.drop_last() =~= all.take(i as int));
        assert(pre.last() == (found@[i as int].0@, found@[i as int].1@));
        let canonical = found[i].0.as_str();
        let ghost prev = output_file_views(r@);
        let mut seen = false;
        let mut k: usize = 0;
        while k < r.len()
            invariant
                0 <= k <= r.len(),
                prev == output_file_views(r@),
                seen <==> exists|j: int| 0 <= j < k && prev[j].1 == canonical@,
            decreases r.len() - k,
        {
            if str_eq(r[k].path.as_str(), canonical) {
                seen = true;
            }
            assert(prev[k as int] == (r@[k as int].name@, r@[k as int].path@));
            k += 1;
        }
        if !seen {
            let name = match crate::api::routes::frontend::file_name(canonical) {
                Some(n) => n,
                None => owned(found[i].1.as_str()),
            };
            r.push(OutputFile { name, path: owned(canonical) });
            assert(output_file_views(r@) =~= prev.push(
                (
                    match file_name_of(canonical@) {
                        Some(n) => n,
                        None => found@[i as int].1@,
                    },
                    canonical@,
                ),
            ));
        }
        i += 1;
    }
    assert(all.take(found.len() as int) =~= all);
    r
}

} // verus!

verus! {

/// The tool that searches the tools of lazy MCP endpoints.
pub const SEARCH_LAZY_MCP_TOOLS_TOOL: &'static str = "search_lazy_mcp_tools";

/// The tool that exposes chosen tools of a lazy MCP endpoint.
pub const ACTIVATE_LAZY_MCP_TOOLS_TOOL: &'static str = "activate_lazy_mcp_tools";

/// The parameters of the lazy MCP tools, in order: name, schema text, whether required.
pub open spec fn lazy_mcp_tool_parameters() -> Seq<Seq<(Seq<char>, Seq<char>, bool)>> {
    seq![
        seq![("query"@, r#"{"type":"string","description":"What capability or tool you need."}"#@, true), ("endpoint_key"@, r#"{"type":"string","description":"Optional lazy MCP endpoint key to narrow the search."}"#@, false)],
        seq![("endpoint_key"@, r#"{"type":"string","description":"The lazy MCP endpoint key returned by search_lazy_mcp_tools."}"#@, true), ("tool_names"@, r#"{"type":"array","items":{"type":"string"},"description":"The specific tool names to expose."}"#@, true)],
    ]
}

/// The two tools that let the model find and expose the tools of lazy MCP
/// endpoints.
pub fn lazy_mcp_control_tool_schemas() -> (r: Vec<ToolSchema>)
    ensures
        schema_entries_of(r@) == seq![
            (SEARCH_LAZY_MCP_TOOLS_TOOL@, "Search hidden lazy MCP tools by keyword before exposing them to the model."@),
            (ACTIVATE_LAZY_MCP_TOOLS_TOOL@, "Expose a small subset of tools from one lazy MCP endpoint for the next reasoning round."@),
        ],
        schema_parameters(r@) == lazy_mcp_tool_parameters(),
{
    let mut r: Vec<ToolSchema> = Vec::new();
    r.push(tool_schema(
        SEARCH_LAZY_MCP_TOOLS_TOOL,
        "Search hidden lazy MCP tools by keyword before exposing them to the model.",
        vec![
            tool_parameter(
                "query",
                r#"{"type":"string","description":"What capability or tool you need."}"#,
                true,
            ),
            tool_parameter(
                "endpoint_key",
                r#"{"type":"string","description":"Optional lazy MCP endpoint key to narrow the search."}"#,
                false,
            ),
        ],
    ));
    r.push(tool_schema(
        ACTIVATE_LAZY_MCP_TOOLS_TOOL,
        "Expose a small subset of tools from one lazy MCP endpoint for the next reasoning round.",
        vec![
            tool_parameter(
                "endpoint_key",
                r#"{"type":"string","description":"The lazy MCP endpoint key returned by search_lazy_mcp_tools."}"#,
                true,
            ),
            tool_parameter(
                "tool_names",
                r#"{"type":"array","items":{"type":"string"},"description":"The specific tool names to expose."}"#,
                true,
            ),
        ],
    ));
    assert(schema_parameters(r@) =~~= lazy_mcp_tool_parameters());
    assert(schema_entries_of(r@) =~= seq![
        (SEARCH_LAZY_MCP_TOOLS_TOOL@, "Search hidden lazy MCP tools by keyword before exposing them to the model."@),
        (ACTIVATE_LAZY_MCP_TOOLS_TOOL@, "Expose a small subset of tools from one lazy MCP endpoint for the next reasoning round."@),
    ]);
    r
}

} // verus!

verus! {

// ---------------------------------------------------------------------------
// Routing a public tool call
// ---------------------------------------------------------------------------

/// Where a public tool call goes once the approval check let it through.
#[derive(Debug, Clone, PartialEq, Eq)]
pub enum PublicToolRoute {
    /// A tool of an MCP server (its name starts with `mcp_`).
    Mcp,
    /// A `read_file` of an office or table file, served by the MCP file reader.
    McpFileRead,
    /// Answered at once with the text.
    Reply(String),
    /// The session, task, worktree and file services are asked in turn, then
    /// the built-in tools.
    Services,
}

/// Whether the `path` argument names a file for the MCP file reader.
pub open spec fn mcp_file_read(arguments: Seq<char>) -> bool {
    match json_string_field(arguments, "path"@) {
        Some(p) => reads_through_mcp(p),
        None => false,
    }
}

/// The route of a public tool call, as `dispatch_public_tool` takes it.
pub fn public_tool_route(tool_name: &str, arguments: &str) -> (r: PublicToolRoute)
    ensures
        has_prefix(tool_name@, "mcp_"@) ==> r == PublicToolRoute::Mcp,
        !has_prefix(tool_name@, "mcp_"@) && tool_name@ == "read_file"@ && mcp_file_read(
            arguments@,
        ) ==> r == PublicToolRoute::McpFileRead,
        !has_prefix(tool_name@, "mcp_"@) && !(tool_name@ == "read_file"@ && mcp_file_read(
            arguments@,
        )) && tool_name@ == "compress"@ ==> (r matches PublicToolRoute::Reply(t) && t@
            == "Compressing..."@),
        !has_prefix(tool_name@, "mcp_"@) && !(tool_name@ == "read_file"@ && mcp_file_read(
            arguments@,
        )) && tool_name@ != "compress"@ ==> r == PublicToolRoute::Services,
{
    if starts_with(tool_name, "mcp_") {
        return PublicToolRoute::Mcp;
    }
    if str_eq(tool_name, "read_file") {
        let path = json_str_field(arguments, "path");
        let through_mcp = match &path {
            Some(p) => should_use_mcp_file_reader(Some(p.as_str())),
            None => false,
        };
        if through_mcp {
            return PublicToolRoute::McpFileRead;
        }
    }
    if str_eq(tool_name, "compress") {
        return PublicToolRoute::Reply(owned("Compressing..."));
    }
    PublicToolRoute::Services
}

/// What a built-in tool call asks for, once no service took it.
#[derive(Debug, Clone, PartialEq, Eq)]
pub enum BuiltinToolCall {
    /// Run a subagent of the given type on the prompt.
    Subagent { prompt: String, agent_type: String },
    /// Load the named skill.
    LoadSkill { name: String },
    /// Search the tools of lazy MCP endpoints.
    SearchLazyMcp,
    /// Expose tools of a lazy MCP endpoint.
    ActivateLazyMcp,
    /// Answered at once with the text.
    Reply(String),
}

/// What a built-in tool call asks for: the subagent (type `Explore` unless
/// given) and skill loading need a non-blank argument; an unknown name is
/// answered as such.
pub fn builtin_tool_call(tool_name: &str, arguments: &str) -> (r: BuiltinToolCall)
    ensures
        tool_name@ == "task"@ ==> match nonblank_argument(arguments@, "prompt"@) {
            Some(p) => (r matches BuiltinToolCall::Subagent { prompt, agent_type } && prompt@ == p
                && agent_type@ == (match json_string_field(arguments@, "agent_type"@) {
                Some(a) => a,
                None => "Explore"@,
            })),
            None => (r matches BuiltinToolCall::Reply(t) && t@
                == "Error: task requires a non-empty prompt"@),
        },
        tool_name@ == "load_skill"@ ==> match nonblank_argument(arguments@, "name"@) {
            Some(n) => (r matches BuiltinToolCall::LoadSkill { name } && name@ == n),
            None => (r matches BuiltinToolCall::Reply(t) && t@
                == "Error: load_skill requires a non-empty name"@),
        },
        tool_name@ == SEARCH_LAZY_MCP_TOOLS_TOOL@ ==> r == BuiltinToolCall::SearchLazyMcp,
        tool_name@ == ACTIVATE_LAZY_MCP_TOOLS_TOOL@ ==> r == BuiltinToolCall::ActivateLazyMcp,
        tool_name@ != "task"@ && tool_name@ != "load_skill"@ && tool_name@
            != SEARCH_LAZY_MCP_TOOLS_TOOL@ && tool_name@ != ACTIVATE_LAZY_MCP_TOOLS_TOOL@
            ==> (r matches BuiltinToolCall::Reply(t) && t@ == "Unknown tool: "@ + tool_name@),
{
    proof {
        reveal_strlit("task");
        reveal_strlit("load_skill");
        reveal_strlit("search_lazy_mcp_tools");
        reveal_strlit("activate_lazy_mcp_tools");
        assert("task"@.len() == 4);
        assert("load_skill"@.len() == 10);
        assert("task"@ != "load_skill"@);
        assert(SEARCH_LAZY_MCP_TOOLS_TOOL@ == "search_lazy_mcp_tools"@);
        assert(ACTIVATE_LAZY_MCP_TOOLS_TOOL@ == "activate_lazy_mcp_tools"@);
        assert("search_lazy_mcp_tools"@.len() == 21);
        assert("activate_lazy_mcp_tools"@.len() == 23);
    }
    if str_eq(tool_name, "task") {
        match nonblank_arg(arguments, "prompt") {
            Some(prompt) => {
                let agent_type = match json_str_field(arguments, "agent_type") {
                    Some(a) => a,
                    None => owned("Explore"),
                };
                BuiltinToolCall::Subagent { prompt, agent_type }
            },
            None => BuiltinToolCall::Reply(owned("Error: task requires a non-empty prompt")),
        }
    } else if str_eq(tool_name, "load_skill") {
        match nonblank_arg(arguments, "name") {
            Some(name) => BuiltinToolCall::LoadSkill { name },
            None => BuiltinToolCall::Reply(owned("Error: load_skill requires a non-empty name")),
        }
    } else if str_eq(tool_name, SEARCH_LAZY_MCP_TOOLS_TOOL) {
        BuiltinToolCall::SearchLazyMcp
    } else if str_eq(tool_name, ACTIVATE_LAZY_MCP_TOOLS_TOOL) {
        BuiltinToolCall::ActivateLazyMcp
    } else {
        BuiltinToolCall::Reply(concat2("Unknown tool: ", tool_name))
    }
}

/// The reply to a `load_skill` call for a skill that was found: its body in a
/// `<skill>` block where the permissions allow it, an error otherwise.
pub fn loaded_skill_reply(skill: &SkillDocument, permissions: &SkillPermissions) -> (r: String)
    ensures
        skill_permitted(
            texts(permissions.allowed_skills@),
            texts(permissions.denied_skills@),
            skill.name@,
        ) ==> r@ == "<skill name=\""@ + skill.name@ + "\" scope=\""@ + skill.scope.label()
            + "\">\n"@ + skill.body@ + "\n</skill>"@,
        !skill_permitted(
            texts(permissions.allowed_skills@),
            texts(permissions.denied_skills@),
            skill.name@,
        ) ==> r@ == "Error: Skill not allowed for current user: "@ + skill.name@,
{
    if !skill_allowed(skill.name.as_str(), permissions) {
        return concat2("Error: Skill not allowed for current user: ", skill.name.as_str());
    }
    let mut r = owned("<skill name=\"");
    push_str(&mut r, skill.name.as_str());
    push_str(&mut r, "\" scope=\"");
    push_str(&mut r, skill.scope.as_str());
    push_str(&mut r, "\">\n");
    push_str(&mut r, skill.body.as_str());
    push_str(&mut r, "\n</skill>");
    r
}

} // verus!

verus! {

/// The older compression tool, the one context tool that the agent answers.
pub open spec fn legacy_compress_entry() -> (Seq<char>, Seq<char>) {
    (LEGACY_COMPRESS_TOOL@, "Legacy alias for compress_context."@)
}

/// The tools that the model is offered before any MCP tool, in order: the
/// file tools, the older compression tool, the task-board tools, the worktree
/// tools, the subagent tool, the session tools where asked for, and skill
/// loading last.
pub open spec fn static_tool_entries(
    file_tools: Seq<(Seq<char>, Seq<char>)>,
    worktree_tools: Seq<(Seq<char>, Seq<char>)>,
    include_session_tools: bool,
) -> Seq<(Seq<char>, Seq<char>)> {
    file_tools + seq![legacy_compress_entry()] + task_tool_entries() + worktree_tools + seq![
        subagent_tool_entry(),
    ] + (if include_session_tools {
        session_tool_entries()
    } else {
        Seq::empty()
    }) + seq![load_skill_tool_entry()]
}

/// The model's tools before any MCP tool, given the file and worktree tools,
/// as `static_tool_entries` orders them.
pub fn static_public_tool_schemas(
    file_tools: Vec<ToolSchema>,
    worktree_tools: Vec<ToolSchema>,
    include_session_tools: bool,
) -> (r: Vec<ToolSchema>)
    ensures
        schema_entries_of(r@) == static_tool_entries(
            schema_entries_of(file_tools@),
            schema_entries_of(worktree_tools@),
            include_session_tools,
        ),
{
    let ghost file_view = file_tools@;
    let ghost worktree_view = worktree_tools@;
    let mut tools = file_tools;
    let mut compaction = public_compaction_tool_schemas();
    proof {
        assert(compaction_tool_entries().len() == 3);
        assert(compaction@.len() == schema_entries_of(compaction@).len());
        assert(schema_entries_of(compaction@)[2] == legacy_compress_entry());
    }
    let ghost before_pop = compaction@;
    let legacy = compaction.pop().unwrap();
    let ghost legacy_view = legacy;
    proof {
        assert(legacy == before_pop[2]);
        assert(schema_entries_of(seq![legacy_view]) =~= seq![legacy_compress_entry()]);
    }
    tools.push(legacy);
    let tasks = public_task_tool_schemas();
    let ghost tasks_view = tasks@;
    extend_tools(&mut tools, tasks);
    extend_tools(&mut tools, worktree_tools);
    let subagent = subagent_tool();
    let ghost subagent_view = subagent;
    tools.push(subagent);
    let ghost session_view: Seq<ToolSchema> = Seq::empty();
    if include_session_tools {
        let session = SessionService::session_tool_schemas();
        proof {
            session_view = session@;
        }
        extend_tools(&mut tools, session);
    }
    let load_skill = load_skill_tool();
    let ghost load_skill_view = load_skill;
    tools.push(load_skill);
    proof {
        assert(tools@ =~= file_view + seq![legacy_view] + tasks_view + worktree_view + seq![
            subagent_view,
        ] + session_view + seq![load_skill_view]);
        assert(schema_entries_of(session_view) =~= (if include_session_tools {
            session_tool_entries()
        } else {
            Seq::empty()
        }));
        assert(schema_entries_of(tools@) =~= schema_entries_of(file_view) + schema_entries_of(
            seq![legacy_view],
        ) + schema_entries_of(tasks_view) + schema_entries_of(worktree_view) + schema_entries_of(
            seq![subagent_view],
        ) + schema_entries_of(session_view) + schema_entries_of(seq![load_skill_view]));
    }
    tools
}

} // verus!

verus! {

/// The arguments a tool call runs with after a human's answer: those the
/// human gave with a modified decision, the call's own otherwise.
pub open spec fn arguments_after_resolution(
    arguments: Seq<char>,
    status: HitlDecisionStatus,
    modified: Option<Seq<char>>,
) -> Seq<char> {
    match (status, modified) {
        (HitlDecisionStatus::Modified, Some(m)) => m,
        _ => arguments,
    }
}

/// The arguments (as JSON text) a tool call runs with after a human's
/// answer, as `arguments_after_resolution` states.
pub fn hitl_run_arguments(arguments: String, status: HitlDecisionStatus, modified: Option<String>) -> (r: String)
    ensures
        r@ == arguments_after_resolution(arguments@, status, opt_view(modified)),
{
    match (status, modified) {
        (HitlDecisionStatus::Modified, Some(m)) => m,
        _ => arguments,
    }
}

} // verus!
