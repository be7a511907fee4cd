use vstd::prelude::*;

use crate::digest::{sha1_hex, sha1_hex_of};
use crate::domain::chat::message::{ChatMessage, ChatMessageView};
use crate::domain::clock::unix_time_millis;
use crate::text::{
    char_count, chars_of, concat2, concat3, contains, contains_seq, decimal, is_ascii_alnum,
    is_ascii_alnum_char, is_whitespace_char, is_ws, owned, push_char, push_str, str_eq,
    string_from_range, take_chars, trim_end, trim_end_seq, u64_to_decimal, usize_to_decimal,
    utf8_len,
};

verus! {

pub const DEFAULT_RESULT_SIZE_CHARS: usize = 100_000;

pub const DEFAULT_TURN_BUDGET_CHARS: usize = 200_000;

pub const DEFAULT_PREVIEW_SIZE_CHARS: usize = 1_500;

/// Where oversized tool results are saved, relative to the repository.
pub const RESULT_STORAGE_DIR: &'static str = ".tool-results";

pub const PERSISTED_OUTPUT_TAG: &'static str = "<persisted-output>";

pub const PERSISTED_OUTPUT_CLOSING_TAG: &'static str = "</persisted-output>";

/// How much tool output goes into the model's context: per result, per turn,
/// and how long the preview of a saved result is, all in characters.
#[derive(Debug, Clone, Copy, PartialEq, Eq, Structural)]
pub struct ToolContextBudget {
    pub result_size_chars: usize,
    pub turn_budget_chars: usize,
    pub preview_size_chars: usize,
}

impl Default for ToolContextBudget {
    fn default() -> (b: Self)
        ensures
            b.result_size_chars == DEFAULT_RESULT_SIZE_CHARS,
            b.turn_budget_chars == DEFAULT_TURN_BUDGET_CHARS,
            b.preview_size_chars == DEFAULT_PREVIEW_SIZE_CHARS,
    {
        ToolContextBudget {
            result_size_chars: DEFAULT_RESULT_SIZE_CHARS,
            turn_budget_chars: DEFAULT_TURN_BUDGET_CHARS,
            preview_size_chars: DEFAULT_PREVIEW_SIZE_CHARS,
        }
    }
}

/// What goes into the model's context for a tool result, and where the full
/// result was saved when it was.
#[derive(Debug, Clone, PartialEq, Eq)]
pub struct ToolContextResult {
    pub model_content: String,
    pub persisted_path: Option<String>,
}

/// `read_file` results always stay inline: saving them would only lead to
/// another `read_file`.
pub fn should_inline_tool_result(tool_name: &str) -> (b: bool)
    ensures
        b == (tool_name@ == "read_file"@),
{
    str_eq(tool_name, "read_file")
}

/// Whether a tool result goes into the context as it is: it comes from
/// `read_file`, or it is no longer than the per-result budget.
pub fn keeps_result_inline(tool_name: &str, content: &str, budget: ToolContextBudget) -> (b: bool)
    ensures
        b == (tool_name@ == "read_file"@ || content@.len() <= budget.result_size_chars),
{
    should_inline_tool_result(tool_name) || char_count(content) <= budget.result_size_chars
}

/// The result as it stays inline.
pub fn inline_result(content: String) -> (r: ToolContextResult)
    ensures
        r.model_content == content,
        r.persisted_path is None,
{
    ToolContextResult { model_content: content, persisted_path: None }
}

/// The index of the last line break of `s`.
pub open spec fn last_newline(s: Seq<char>) -> Option<int>
    decreases s.len(),
{
    if s.len() == 0 {
        None
    } else if s.last() == '\n' {
        Some(s.len() - 1)
    } else {
        last_newline(s.drop_last())
    }
}

proof fn lemma_last_newline(s: Seq<char>)
    ensures
        last_newline(s) matches Some(k) ==> 0 <= k < s.len() && s[k] == '\n',
    decreases s.len(),
{
    if s.len() > 0 && s.last() != '\n' {
        lemma_last_newline(s.drop_last());
    }
}

/// The preview of a result: the whole of it when it fits in `max_chars`
/// characters; otherwise its first `max_chars` characters, cut after their
/// last line break when that break lies more than `max_chars / 2` bytes in.
pub open spec fn preview_of(content: Seq<char>, max_chars: nat) -> Seq<char> {
    if content.len() <= max_chars {
        content
    } else {
        let p = content.take(max_chars as int);
        match last_newline(p) {
            Some(k) => if utf8_len(p.take(k)) > max_chars / 2 {
                p.take(k + 1)
            } else {
                p
            },
            None => p,
        }
    }
}

/// The preview of a result, as `preview_of` states.
pub fn generate_preview(content: &str, max_chars: usize) -> (r: String)
    ensures
        r@ == preview_of(content@, max_chars as nat),
{
    let n = char_count(content);
    if n <= max_chars {
        return owned(content);
    }
    let preview = take_chars(content, max_chars);
    let v = chars_of(preview.as_str());
    let ghost p = v@;
    let mut i: usize = v.len();
    assert(p.take(i as int) =~= p);
    while i > 0 && v[i - 1] != '\n'
        invariant
            0 <= i <= v.len(),
            p == v@,
            last_newline(p) == last_newline(p.take(i as int)),
        decreases i,
    {
        assert(p.take(i as int).drop_last() =~= p.take(i - 1));
        i -= 1;
    }
    if i == 0 {
        assert(p.take(0) =~= Seq::<char>::empty());
        return preview;
    }
    assert(p.take(i as int).last() == '\n');
    assert(last_newline(p) == Some(i - 1));
    let head = string_from_range(&v, 0, i - 1);
    let bytes = crate::text::byte_len(head.as_str());
    if bytes > max_chars / 2 {
        string_from_range(&v, 0, i)
    } else {
        preview
    }
}

/// The message that stands in the context for a saved result.
pub open spec fn persisted_message(preview: Seq<char>, original_chars: nat, file_path: Seq<char>) -> Seq<
    char,
> {
    "<persisted-output>"@ + "\nThis tool result was too large ("@ + decimal(original_chars)
        + " characters).\nFull output saved to: "@ + file_path
        + "\nUse the read_file tool with a targeted path/limit if you need specific sections of this output.\n\nPreview (first "@
        + decimal(preview.len()) + " chars):\n"@ + trim_end_seq(preview) + "\n...\n"@
        + "</persisted-output>"@
}

/// The message that stands in the context for a saved result.
pub fn build_persisted_message(preview: &str, original_chars: usize, file_path: &str) -> (r: String)
    ensures
        r@ == persisted_message(preview@, original_chars as nat, file_path@),
{
    let mut out = owned("<persisted-output>");
    push_str(&mut out, "\nThis tool result was too large (");
    push_str(&mut out, usize_to_decimal(original_chars).as_str());
    push_str(&mut out, " characters).\nFull output saved to: ");
    push_str(&mut out, file_path);
    push_str(
        &mut out,
        "\nUse the read_file tool with a targeted path/limit if you need specific sections of this output.\n\nPreview (first ",
    );
    push_str(&mut out, usize_to_decimal(char_count(preview)).as_str());
    push_str(&mut out, " chars):\n");
    push_str(&mut out, trim_end(preview).as_str());
    push_str(&mut out, "\n...\n");
    push_str(&mut out, "</persisted-output>");
    out
}

/// The message that stands in the context when a result could not be saved.
pub open spec fn unsaved_message(preview: Seq<char>, content_chars: nat) -> Seq<char> {
    preview + "\n\n[Truncated: tool response was "@ + decimal(content_chars)
        + " characters. Full output could not be saved to workspace storage.]"@
}

/// The result when saving it failed: its preview and a note, inline.
pub fn unsaved_result(preview: &str, content_chars: usize) -> (r: ToolContextResult)
    ensures
        r.model_content@ == unsaved_message(preview@, content_chars as nat),
        r.persisted_path is None,
{
    let mut out = owned(preview);
    push_str(&mut out, "\n\n[Truncated: tool response was ");
    push_str(&mut out, usize_to_decimal(content_chars).as_str());
    push_str(&mut out, " characters. Full output could not be saved to workspace storage.]");
    ToolContextResult { model_content: out, persisted_path: None }
}

/// The result when it was saved at `file_path`.
pub fn saved_result(content: &str, budget: ToolContextBudget, file_path: &str) -> (r:
    ToolContextResult)
    ensures
        r.model_content@ == persisted_message(
            preview_of(content@, budget.preview_size_chars as nat),
            content@.len(),
            file_path@,
        ),
        r.persisted_path matches Some(p) && p@ == file_path@,
{
    let preview = generate_preview(content, budget.preview_size_chars);
    let n = char_count(content);
    ToolContextResult {
        model_content: build_persisted_message(preview.as_str(), n, file_path),
        persisted_path: Some(owned(file_path)),
    }
}

/// How a character of a name shows in a file name: ASCII letters, digits, `-`
/// and `_` as they are, white space as `-`, anything else dropped.
pub open spec fn filename_chars(s: Seq<char>) -> Seq<char>
    decreases s.len(),
{
    if s.len() == 0 {
        Seq::empty()
    } else {
        let c = s.last();
        let rest = filename_chars(s.drop_last());
        if is_ascii_alnum(c) || c == '-' || c == '_' {
            rest.push(c)
        } else if is_ws(c) {
            rest.push('-')
        } else {
            rest
        }
    }
}

/// A name made safe for a file name: at most eighty kept characters, `tool`
/// when none is kept.
pub open spec fn sanitized_filename(s: Seq<char>) -> Seq<char> {
    let kept = filename_chars(s);
    let cut = if kept.len() > 80 {
        kept.take(80)
    } else {
        kept
    };
    if cut.len() == 0 {
        "tool"@
    } else {
        cut
    }
}

/// A name made safe for a file name, as `sanitized_filename` states.
pub fn sanitize_filename(value: &str) -> (r: String)
    ensures
        r@ == sanitized_filename(value@),
{
    let v = chars_of(value);
    let mut kept = String::new();
    let mut i: usize = 0;
    assert(v@.take(0) =~= Seq::<char>::empty());
    while i < v.len()
        invariant
            0 <= i <= v.len(),
            v@ == value@,
            kept@ == filename_chars(v@.take(i as int)),
        decreases v.len() - i,
    {
        assert(v@.take(i + 1).drop_last() =~= v@.take(i as int));
        let c = v[i];
        if is_ascii_alnum_char(c) || c == '-' || c == '_' {
            push_char(&mut kept, c);
        } else if is_whitespace_char(c) {
            push_char(&mut kept, '-');
        }
        i += 1;
    }
    assert(v@.take(v.len() as int) =~= v@);
    let cut = take_chars(kept.as_str(), 80);
    if char_count(cut.as_str()) == 0 {
        owned("tool")
    } else {
        cut
    }
}

/// The file name of a saved result: the time in seconds, the sanitized tool
/// name and call id, and the first ten hex digits of the SHA-1 of the call id
/// followed by the tool name.
pub open spec fn result_filename(secs: nat, tool_name: Seq<char>, tool_call_id: Seq<char>) -> Seq<
    char,
> {
    decimal(secs) + "-"@ + sanitized_filename(tool_name) + "-"@ + sanitized_filename(tool_call_id)
        + "-"@ + sha1_hex_of(tool_call_id + tool_name).take(10) + ".txt"@
}

/// The file name for a result saved now.
pub fn build_result_filename(tool_name: &str, tool_call_id: &str) -> (r: String)
    ensures
        exists|secs: nat| r@ == result_filename(secs, tool_name@, tool_call_id@),
{
    let secs = (unix_time_millis() / 1000) as u64;
    let safe_tool = sanitize_filename(tool_name);
    let safe_call = sanitize_filename(tool_call_id);
    let keyed = concat2(tool_call_id, tool_name);
    let digest = sha1_hex(keyed.as_str());
    let short = take_chars(digest.as_str(), 10);
    let mut out = u64_to_decimal(secs);
    push_str(&mut out, "-");
    push_str(&mut out, safe_tool.as_str());
    push_str(&mut out, "-");
    push_str(&mut out, safe_call.as_str());
    push_str(&mut out, "-");
    push_str(&mut out, short.as_str());
    push_str(&mut out, ".txt");
    assert(out@ == result_filename(secs as nat, tool_name@, tool_call_id@));
    out
}

/// The characters of a message's content, none when it has no content.
pub open spec fn content_chars(m: ChatMessageView) -> nat {
    match m.content {
        Some(c) => c.len(),
        None => 0,
    }
}

/// The characters of the tool results among `ms`.
pub open spec fn tool_chars_total(ms: Seq<ChatMessageView>) -> nat
    decreases ms.len(),
{
    if ms.len() == 0 {
        0
    } else {
        tool_chars_total(ms.drop_last()) + if ms.last().role == "tool"@ {
            content_chars(ms.last())
        } else {
            0
        }
    }
}

pub open spec fn views(ms: Seq<ChatMessage>) -> Seq<ChatMessageView> {
    ms.map_values(|m: ChatMessage| m@)
}

/// The characters of the tool results of a turn, the messages from
/// `start` on.
pub fn turn_tool_chars(messages: &Vec<ChatMessage>, start: usize) -> (n: usize)
    requires
        start <= messages@.len(),
        tool_chars_total(views(messages@).skip(start as int)) <= usize::MAX,
    ensures
        n == tool_chars_total(views(messages@).skip(start as int)),
{
    let ghost ms = views(messages@).skip(start as int);
    let mut n: usize = 0;
    let mut i: usize = start;
    assert(ms.take(0) =~= Seq::<ChatMessageView>::empty());
    while i < messages.len()
        invariant
            start <= i <= messages.len(),
            ms == views(messages@).skip(start as int),
            tool_chars_total(ms) <= usize::MAX,
            n == tool_chars_total(ms.take(i - start)),
        decreases messages.len() - i,
    {
        let ghost k = i - start;
        assert(ms.take(k + 1).drop_last() =~= ms.take(k));
        assert(ms.take(k + 1).last() == messages@[i as int]@);
        proof {
            lemma_tool_chars_prefix(ms, k + 1);
        }
        let m = &messages[i];
        if str_eq(m.role.as_str(), "tool") {
            let c = match &m.content {
                Some(c) => char_count(c.as_str()),
                None => 0,
            };
            n = n + c;
        }
        i += 1;
    }
    assert(ms.take(messages.len() - start) =~= ms);
    n
}

proof fn lemma_tool_chars_prefix(ms: Seq<ChatMessageView>, k: int)
    requires
        0 <= k <= ms.len(),
    ensures
        tool_chars_total(ms.take(k)) <= tool_chars_total(ms),
    decreases ms.len() - k,
{
    if k < ms.len() {
        lemma_tool_chars_prefix(ms, k + 1);
        assert(ms.take(k + 1).drop_last() =~= ms.take(k));
    } else {
        assert(ms.take(k) =~= ms);
    }
}

/// A tool result of the turn that may be saved: it is a tool message whose
/// content is not already a saved-result message.
pub open spec fn is_candidate(m: ChatMessageView) -> bool {
    m.role == "tool"@ && !contains_seq(
        match m.content {
            Some(c) => c,
            None => Seq::empty(),
        },
        PERSISTED_OUTPUT_TAG@,
    )
}

/// `a` is saved before `b`: it is longer, or as long and earlier.
pub open spec fn saved_before(a: (usize, usize), b: (usize, usize)) -> bool {
    a.1 > b.1 || (a.1 == b.1 && a.0 < b.0)
}

/// The candidates of a turn, each once with its length, longest first and
/// earlier first among equals.
pub open spec fn is_candidate_order(
    r: Seq<(usize, usize)>,
    ms: Seq<ChatMessageView>,
    start: int,
) -> bool {
    &&& forall|i: int, j: int| 0 <= i < j < r.len() ==> saved_before(#[trigger] r[i], #[trigger] r[j])
    &&& forall|i: int|
        0 <= i < r.len() ==> start <= (#[trigger] r[i]).0 < ms.len() && is_candidate(ms[r[i].0 as int])
            && r[i].1 == content_chars(ms[r[i].0 as int])
    &&& forall|k: int|
        start <= k < ms.len() && is_candidate(#[trigger] ms[k]) ==> exists|i: int|
            0 <= i < r.len() && (#[trigger] r[i]).0 == k
}

proof fn lemma_saved_order(a: (usize, usize), b: (usize, usize), c: (usize, usize))
    ensures
        !saved_before(a, a),
        a.0 != b.0 ==> saved_before(a, b) || saved_before(b, a),
        saved_before(a, b) && saved_before(b, c) ==> saved_before(a, c),
{
}

/// The tool results of the turn that may be saved to meet the turn budget,
/// in the order they are tried.
pub fn turn_budget_candidates(messages: &Vec<ChatMessage>, start: usize) -> (r: Vec<(usize, usize)>)
    ensures
        is_candidate_order(r@, views(messages@), start as int),
{
    let ghost ms = views(messages@);
    let mut r: Vec<(usize, usize)> = Vec::new();
    if start >= messages.len() {
        return r;
    }
    let mut i: usize = start;
    while i < messages.len()
        invariant
            ms == views(messages@),
            start <= i <= messages.len(),
            forall|a: int, b: int| 0 <= a < b < r@.len() ==> saved_before(#[trigger] r@[a], #[trigger] r@[b]),
            forall|a: int|
                0 <= a < r@.len() ==> start <= (#[trigger] r@[a]).0 < i && is_candidate(ms[r@[a].0 as int])
                    && r@[a].1 == content_chars(ms[r@[a].0 as int]),
            forall|k: int|
                start <= k < i && k < ms.len() && is_candidate(#[trigger] ms[k]) ==> exists|a: int|
                    0 <= a < r@.len() && (#[trigger] r@[a]).0 == k,
        decreases messages.len() - i,
    {
        let m = &messages[i];
        assert(ms[i as int] == m@);
        let is_tool = str_eq(m.role.as_str(), "tool");
        let tagged = match &m.content {
            Some(c) => contains(c.as_str(), PERSISTED_OUTPUT_TAG),
            None => {
                proof {
                    reveal_strlit("<persisted-output>");
                    assert(!contains_seq(Seq::<char>::empty(), PERSISTED_OUTPUT_TAG@));
                }
                false
            },
        };
        if is_tool && !tagged {
            let chars = match &m.content {
                Some(c) => char_count(c.as_str()),
                None => 0,
            };
            let x = (i, chars);
            let ghost before = r@;
            let mut pos: usize = 0;
            while pos < r.len() && !(chars > r[pos].1)
                invariant
                    0 <= pos <= r.len(),
                    r@ == before,
                    x.1 == chars,
                    forall|a: int| 0 <= a < before.len() ==> (#[trigger] before[a]).0 < x.0,
                    forall|a: int| 0 <= a < pos ==> saved_before(#[trigger] before[a], x),
                decreases r.len() - pos,
            {
                assert(before[pos as int].0 < x.0);
                pos += 1;
            }
            proof {
                assert forall|a: int| pos <= a < before.len() implies saved_before(x, #[trigger] before[a]) by {
                    assert(x.1 > before[pos as int].1);
                    if a > pos {
                        assert(saved_before(before[pos as int], before[a]));
                    }
                }
            }
            r.insert(pos, x);
            proof {
                assert(r@ =~= before.insert(pos as int, x));
                assert forall|a: int, b: int| 0 <= a < b < r@.len() implies saved_before(
                    #[trigger] r@[a],
                    #[trigger] r@[b],
                ) by {
                    if b < pos {
                        assert(r@[a] == before[a] && r@[b] == before[b]);
                    } else if b == pos {
                        assert(r@[a] == before[a]);
                    } else if a < pos {
                        assert(r@[a] == before[a] && r@[b] == before[b - 1]);
                        lemma_saved_order(before[a], x, before[b - 1]);
                    } else if a == pos {
                        assert(r@[b] == before[b - 1]);
                    } else {
                        assert(r@[a] == before[a - 1] && r@[b] == before[b - 1]);
                    }
                }
                assert forall|a: int|
                    0 <= a < r@.len() implies start <= (#[trigger] r@[a]).0 < i + 1 && is_candidate(
                    ms[r@[a].0 as int],
                ) && r@[a].1 == content_chars(ms[r@[a].0 as int]) by {
                    if a < pos {
                        assert(r@[a] == before[a]);
                    } else if a > pos {
                        assert(r@[a] == before[a - 1]);
                    }
                }
                assert forall|k: int|
                    start <= k < i + 1 && k < ms.len() && is_candidate(#[trigger] ms[k]) implies exists|a: int|
                    0 <= a < r@.len() && (#[trigger] r@[a]).0 == k by {
                    if k < i {
                        let a = choose|a: int| 0 <= a < before.len() && (#[trigger] before[a]).0 == k;
                        if a < pos {
                            assert(r@[a] == before[a]);
                        } else {
                            assert(r@[a + 1] == before[a]);
                        }
                    } else {
                        assert(r@[pos as int] == x);
                    }
                }
            }
        } else {
            proof {
                assert forall|k: int|
                    start <= k < i + 1 && k < ms.len() && is_candidate(#[trigger] ms[k]) implies exists|a: int|
                    0 <= a < r@.len() && (#[trigger] r@[a]).0 == k by {
                    if k == i {
                        assert(!is_candidate(ms[k]));
                    }
                }
            }
        }
        i += 1;
    }
    r
}

/// Puts a saved result's message in place of a tool result when it differs
/// and is shorter, and gives the turn's new total of characters (held at
/// zero and at `usize::MAX`); otherwise leaves the message and gives the
/// total back.
pub fn apply_turn_replacement(
    messages: &mut Vec<ChatMessage>,
    index: usize,
    original_chars: usize,
    replacement: String,
    total_chars: usize,
) -> (t: usize)
    requires
        index < old(messages)@.len(),
    ensures
        ({
            let cur = old(messages)@[index as int].content;
            let takes = !(cur matches Some(c) && c@ == replacement@) && replacement@.len()
                < original_chars;
            &&& final(messages)@.len() == old(messages)@.len()
            &&& forall|k: int|
                0 <= k < final(messages)@.len() && k != index ==> final(messages)@[k]
                    == old(messages)@[k]
            &&& if takes {
                &&& final(messages)@[index as int].content == Some(replacement)
                &&& final(messages)@[index as int].role == old(messages)@[index as int].role
                &&& final(messages)@[index as int].tool_call_id == old(
                    messages,
                )@[index as int].tool_call_id
                &&& t as int == if total_chars < original_chars {
                    replacement@.len() as int
                } else if total_chars - original_chars + replacement@.len() > usize::MAX {
                    usize::MAX as int
                } else {
                    total_chars - original_chars + replacement@.len()
                }
            } else {
                final(messages)@[index as int] == old(messages)@[index as int] && t == total_chars
            }
        }),
{
    let same = match &messages[index].content {
        Some(c) => str_eq(c.as_str(), replacement.as_str()),
        None => false,
    };
    let n = char_count(replacement.as_str());
    if !same && n < original_chars {
        let mut m = messages.remove(index);
        m.content = Some(replacement);
        messages.insert(index, m);
        total_chars.saturating_sub(original_chars).saturating_add(n)
    } else {
        total_chars
    }
}

} // verus!
