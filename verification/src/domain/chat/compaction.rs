use vstd::prelude::*;

use crate::domain::chat::message::{ChatMessage, ChatMessageView, message_views};
use crate::domain::chat::message::opt_text;
use crate::domain::chat::tool_schema::{schema_entries_of, schema_parameters, tool_parameter, tool_schema, ToolSchema};
use crate::json::{json_quoted, push_json_string};
use crate::text::{
    byte_len, chars_of, concat2, decimal, is_ascii_alnum, is_ascii_alnum_char, is_blank, is_empty_text,
    join_newline, join_path, join_path_seq, join_with_newlines, lines, lines_of, owned, push_str,
    str_eq, take_chars, trim, trim_seq, usize_to_decimal, utf8_len, utf8_len_exec,
};

verus! {

/// Character limit of the conversation text handed to the summarizer.
pub const AUTO_COMPACT_INPUT_CHARS: usize = 80_000;

/// How many recent question/answer pairs survive a compaction above the threshold.
pub const RECENT_QA_KEEP_PAIRS_AFTER_THRESHOLD: usize = 3;

/// Up to this many question/answer pairs, a conversation is never compacted.
pub const QA_PAIR_GRACE_LIMIT: usize = 5;

pub const COMPRESS_CONTEXT_TOOL: &'static str = "compress_context";

pub const LEGACY_COMPRESS_TOOL: &'static str = "compress";

pub const CONTEXT_TRANSCRIPT_GET_TOOL: &'static str = "context_transcript_get";

pub open spec fn is_tool_message(m: ChatMessageView) -> bool {
    m.role == "tool"@
}

/// The message carries no tool calls (none at all, or an empty list).
pub open spec fn without_tool_calls(m: ChatMessageView) -> bool {
    match m.tool_calls {
        Some(calls) => calls.len() == 0,
        None => true,
    }
}

pub open spec fn count_tools(ms: Seq<ChatMessageView>) -> nat
    decreases ms.len(),
{
    if ms.len() == 0 {
        0
    } else {
        count_tools(ms.drop_last()) + if is_tool_message(ms.last()) {
            1nat
        } else {
            0nat
        }
    }
}

pub open spec fn cleared(m: ChatMessageView) -> ChatMessageView {
    ChatMessageView { content: Some("[cleared]"@), ..m }
}

/// The message at `i` is a tool result, not among the three most recent ones,
/// whose content is longer than a hundred bytes.
pub open spec fn clears_at(ms: Seq<ChatMessageView>, i: int) -> bool {
    let total = count_tools(ms);
    &&& total > 3
    &&& is_tool_message(ms[i])
    &&& count_tools(ms.take(i)) < total - 3
    &&& ms[i].content matches Some(c) && utf8_len(c) > 100
}

/// The conversation with old, large tool results replaced by `[cleared]`.
pub open spec fn microcompacted(ms: Seq<ChatMessageView>) -> Seq<ChatMessageView> {
    Seq::new(
        ms.len(),
        |i: int|
            if clears_at(ms, i) {
                cleared(ms[i])
            } else {
                ms[i]
            },
    )
}

fn is_role(m: &ChatMessage, role: &str) -> (b: bool)
    ensures
        b == (m@.role == role@),
{
    str_eq(m.role.as_str(), role)
}

fn has_no_tool_calls(m: &ChatMessage) -> (b: bool)
    ensures
        b == without_tool_calls(m@),
{
    match &m.tool_calls {
        Some(calls) => calls.len() == 0,
        None => true,
    }
}

/// The number of tool results in `messages`.
pub fn count_tool_messages(messages: &Vec<ChatMessage>) -> (n: usize)
    ensures
        n == count_tools(message_views(messages@)),
{
    let ghost ms = message_views(messages@);
    let mut n: usize = 0;
    let mut i: usize = 0;
    while i < messages.len()
        invariant
            0 <= i <= messages.len(),
            ms == message_views(messages@),
            n == count_tools(ms.take(i as int)),
            n <= i,
        decreases messages.len() - i,
    {
        if is_role(&messages[i], "tool") {
            n += 1;
        }
        assert(ms.take(i + 1).drop_last() =~= ms.take(i as int));
        i += 1;
    }
    assert(ms.take(messages.len() as int) =~= ms);
    n
}

/// Replaces the content of every tool result except the three most recent ones
/// with `[cleared]`, where that content is longer than a hundred bytes. Other
/// messages, and short results, are left as they were.
pub fn microcompact(messages: &mut Vec<ChatMessage>)
    ensures
        message_views(final(messages)@) == microcompacted(message_views(old(messages)@)),
{
    let ghost orig = message_views(messages@);
    let total = count_tool_messages(messages);
    if total <= 3 {
        assert(message_views(messages@) =~= microcompacted(orig));
        return;
    }
    let limit = total - 3;
    let mut seen: usize = 0;
    let mut i: usize = 0;
    while i < messages.len()
        invariant
            0 <= i <= messages.len(),
            messages@.len() == orig.len(),
            total == count_tools(orig),
            total > 3,
            limit == total - 3,
            seen == count_tools(orig.take(i as int)),
            seen <= i,
            forall|j: int|
                0 <= j < i ==> #[trigger] messages@[j]@ == if clears_at(orig, j) {
                    cleared(orig[j])
                } else {
                    orig[j]
                },
            forall|j: int| i <= j < messages@.len() ==> #[trigger] messages@[j]@ == orig[j],
        decreases messages.len() - i,
    {
        let ghost before = messages@;
        let is_tool = is_role(&messages[i], "tool");
        if is_tool {
            let large = match &messages[i].content {
                Some(c) => utf8_len_exec(c.as_str()) > 100,
                None => false,
            };
            if seen < limit && large {
                let mut m = messages.remove(i);
                m.content = Some(owned("[cleared]"));
                messages.insert(i, m);
                proof {
                    assert(messages@ =~= before.update(i as int, m));
                    assert(clears_at(orig, i as int));
                }
            } else {
                proof {
                    assert(!clears_at(orig, i as int));
                }
            }
            seen += 1;
        } else {
            assert(!clears_at(orig, i as int));
        }
        assert(orig.take(i + 1).drop_last() =~= orig.take(i as int));
        i += 1;
    }
    assert(message_views(messages@) =~= microcompacted(orig));
}

// ---------------------------------------------------------------------------
// When to compact
// ---------------------------------------------------------------------------

/// Scan state of the question/answer pair count: a user message is waiting for
/// its answer, and the pairs counted so far.
pub open spec fn qa_scan(ms: Seq<ChatMessageView>) -> (bool, nat)
    decreases ms.len(),
{
    if ms.len() == 0 {
        (false, 0)
    } else {
        let (pending, pairs) = qa_scan(ms.drop_last());
        let m = ms.last();
        if m.role == "user"@ {
            (true, pairs)
        } else if m.role == "assistant"@ && pending && without_tool_calls(m) {
            (false, pairs + 1)
        } else {
            (pending, pairs)
        }
    }
}

/// The number of user messages answered by an assistant message without tool calls.
pub open spec fn qa_pairs(ms: Seq<ChatMessageView>) -> nat {
    qa_scan(ms).1
}

proof fn lemma_qa_scan_bound(ms: Seq<ChatMessageView>)
    ensures
        qa_scan(ms).1 <= ms.len(),
    decreases ms.len(),
{
    if ms.len() > 0 {
        lemma_qa_scan_bound(ms.drop_last());
    }
}

/// Counts the question/answer pairs of a conversation.
pub fn count_qa_pairs(messages: &Vec<ChatMessage>) -> (n: usize)
    ensures
        n == qa_pairs(message_views(messages@)),
{
    let ghost ms = message_views(messages@);
    let mut pending = false;
    let mut pairs: usize = 0;
    let mut i: usize = 0;
    while i < messages.len()
        invariant
            0 <= i <= messages.len(),
            ms == message_views(messages@),
            (pending, pairs as nat) == qa_scan(ms.take(i as int)),
            pairs <= i,
        decreases messages.len() - i,
    {
        let m = &messages[i];
        assert(ms.take(i + 1).drop_last() =~= ms.take(i as int));
        assert(ms.take(i + 1).last() == m@);
        if is_role(m, "user") {
            pending = true;
        } else if is_role(m, "assistant") && pending && has_no_tool_calls(m) {
            pairs += 1;
            pending = false;
        }
        i += 1;
    }
    assert(ms.take(messages.len() as int) =~= ms);
    pairs
}

/// Whether and how a conversation is compacted.
#[derive(Debug, Clone, Copy, PartialEq, Eq, Structural)]
pub enum CompactionDecision {
    Skip { token_estimate: usize, qa_pairs: usize },
    CompactAll { token_estimate: usize, qa_pairs: usize },
    KeepRecentQa { token_estimate: usize, qa_pairs: usize, keep_pairs: usize },
}

impl CompactionDecision {
    pub open spec fn compacts(self) -> bool {
        !(self is Skip)
    }

    pub open spec fn reason_text(self) -> Seq<char> {
        match self {
            CompactionDecision::Skip { .. } => "below_token_threshold_or_within_qa_grace"@,
            CompactionDecision::CompactAll { .. } =>
                "over_token_threshold_without_recent_qa_window"@,
            CompactionDecision::KeepRecentQa { .. } => "over_token_threshold_keep_recent_qa"@,
        }
    }

    pub fn should_compact(&self) -> (b: bool)
        ensures
            b == self.compacts(),
    {
        match self {
            CompactionDecision::Skip { .. } => false,
            _ => true,
        }
    }

    pub fn reason(&self) -> (s: &'static str)
        ensures
            s@ == self.reason_text(),
    {
        match self {
            CompactionDecision::Skip { .. } => "below_token_threshold_or_within_qa_grace",
            CompactionDecision::CompactAll { .. } =>
                "over_token_threshold_without_recent_qa_window",
            CompactionDecision::KeepRecentQa { .. } => "over_token_threshold_keep_recent_qa",
        }
    }
}

/// The decision for a conversation with `qa` question/answer pairs whose size is
/// estimated at `estimate` tokens.
pub open spec fn compaction_for(estimate: usize, qa: usize, threshold: usize) -> CompactionDecision {
    if estimate <= threshold || qa <= QA_PAIR_GRACE_LIMIT {
        CompactionDecision::Skip { token_estimate: estimate, qa_pairs: qa }
    } else if qa > RECENT_QA_KEEP_PAIRS_AFTER_THRESHOLD {
        CompactionDecision::KeepRecentQa {
            token_estimate: estimate,
            qa_pairs: qa,
            keep_pairs: RECENT_QA_KEEP_PAIRS_AFTER_THRESHOLD,
        }
    } else {
        CompactionDecision::CompactAll { token_estimate: estimate, qa_pairs: qa }
    }
}

/// The estimated size in tokens of a conversation, from the JSON text of its
/// messages (`serde_json::to_string` of the list): a quarter of its length in
/// bytes.
pub fn estimate_tokens(messages_json: &str) -> (r: usize)
    ensures
        r as nat == utf8_len(messages_json@) / 4,
{
    byte_len(messages_json) / 4
}

/// Decides whether to compact a conversation given its messages and their
/// JSON text, estimating its size from the text as `estimate_tokens` does.
pub fn compaction_decision(
    messages: &Vec<ChatMessage>,
    messages_json: &str,
    token_threshold: usize,
) -> (d: CompactionDecision)
    ensures
        d == compaction_for(
            (utf8_len(messages_json@) / 4) as usize,
            qa_pairs(message_views(messages@)) as usize,
            token_threshold,
        ),
{
    let estimate = estimate_tokens(messages_json);
    decide_compaction(messages, estimate, token_threshold)
}

/// Decides whether to compact: only above the token threshold and past the grace
/// of five question/answer pairs, and then keeping the three most recent pairs.
/// `token_estimate` is the conversation's estimated size in tokens.
pub fn decide_compaction(
    messages: &Vec<ChatMessage>,
    token_estimate: usize,
    token_threshold: usize,
) -> (d: CompactionDecision)
    ensures
        d == compaction_for(
            token_estimate,
            qa_pairs(message_views(messages@)) as usize,
            token_threshold,
        ),
{
    let qa_pairs = count_qa_pairs(messages);
    if token_estimate <= token_threshold || qa_pairs <= QA_PAIR_GRACE_LIMIT {
        return CompactionDecision::Skip { token_estimate, qa_pairs };
    }
    if qa_pairs > RECENT_QA_KEEP_PAIRS_AFTER_THRESHOLD {
        CompactionDecision::KeepRecentQa {
            token_estimate,
            qa_pairs,
            keep_pairs: RECENT_QA_KEEP_PAIRS_AFTER_THRESHOLD,
        }
    } else {
        CompactionDecision::CompactAll { token_estimate, qa_pairs }
    }
}

/// A compaction happens exactly when the estimate is above the threshold and the
/// conversation has more than five question/answer pairs; it then always keeps
/// the three most recent pairs, so compacting everything never happens.
pub proof fn lemma_compaction_decision(estimate: usize, qa: usize, threshold: usize)
    ensures
        compaction_for(estimate, qa, threshold).compacts() <==> (estimate > threshold && qa
            > QA_PAIR_GRACE_LIMIT),
        !(compaction_for(estimate, qa, threshold) is CompactAll),
        compaction_for(estimate, qa, threshold).compacts() ==> compaction_for(
            estimate,
            qa,
            threshold,
        ) == (CompactionDecision::KeepRecentQa {
            token_estimate: estimate,
            qa_pairs: qa,
            keep_pairs: 3,
        }),
{
}

// ---------------------------------------------------------------------------
// Splitting off the recent question/answer pairs
// ---------------------------------------------------------------------------

/// State of the backward scan over `ms[i..]`: an answer waits for its question,
/// the pairs found, the start of the kept tail, and whether enough pairs were found.
pub struct TailScan {
    pub awaiting_user: bool,
    pub pairs: nat,
    pub start: int,
    pub done: bool,
}

pub open spec fn tail_scan(ms: Seq<ChatMessageView>, keep: nat, i: int) -> TailScan
    decreases ms.len() - i,
{
    if i >= ms.len() || i < 0 {
        TailScan { awaiting_user: false, pairs: 0, start: ms.len() as int, done: false }
    } else {
        let s = tail_scan(ms, keep, i + 1);
        let m = ms[i];
        if s.done {
            s
        } else if m.role == "assistant"@ && without_tool_calls(m) {
            TailScan { awaiting_user: true, ..s }
        } else if m.role == "user"@ && s.awaiting_user {
            TailScan {
                awaiting_user: false,
                pairs: s.pairs + 1,
                start: i,
                done: s.pairs + 1 >= keep,
            }
        } else {
            s
        }
    }
}

/// The split of a conversation tail into what is summarized and what is kept.
pub open spec fn qa_tail_split(ms: Seq<ChatMessageView>, keep: Option<usize>) -> (
    Seq<ChatMessageView>,
    Seq<ChatMessageView>,
) {
    match keep {
        Some(k) if k > 0 => {
            let s = tail_scan(ms, k as nat, 0);
            if s.pairs == 0 {
                (ms, Seq::empty())
            } else {
                (ms.take(s.start), ms.skip(s.start))
            }
        },
        _ => (ms, Seq::empty()),
    }
}

proof fn lemma_tail_scan_bounds(ms: Seq<ChatMessageView>, keep: nat, i: int)
    requires
        0 <= i <= ms.len(),
    ensures
        i <= tail_scan(ms, keep, i).start <= ms.len(),
        tail_scan(ms, keep, i).pairs <= ms.len() - i,
        tail_scan(ms, keep, i).pairs == 0 ==> tail_scan(ms, keep, i).start == ms.len(),
    decreases ms.len() - i,
{
    if i < ms.len() {
        lemma_tail_scan_bounds(ms, keep, i + 1);
    }
}

proof fn lemma_tail_scan_done_stays(ms: Seq<ChatMessageView>, keep: nat, i: int, j: int)
    requires
        0 <= j <= i <= ms.len(),
        tail_scan(ms, keep, i).done,
    ensures
        tail_scan(ms, keep, j) == tail_scan(ms, keep, i),
    decreases i - j,
{
    if j < i {
        lemma_tail_scan_done_stays(ms, keep, i, j + 1);
    }
}

/// Splits a conversation tail so that the last `keep_recent_qa_pairs`
/// question/answer pairs (and everything after them) are kept and the rest is
/// summarized; with no pair to keep, everything is summarized.
pub fn split_recent_qa_tail(tail: Vec<ChatMessage>, keep_recent_qa_pairs: Option<usize>) -> (r: (
    Vec<ChatMessage>,
    Vec<ChatMessage>,
))
    ensures
        (message_views(r.0@), message_views(r.1@)) == qa_tail_split(
            message_views(tail@),
            keep_recent_qa_pairs,
        ),
        r.0@ + r.1@ == tail@,
{
    let ghost ms = message_views(tail@);
    let keep_pairs = match keep_recent_qa_pairs {
        Some(k) => k,
        None => 0,
    };
    if keep_pairs == 0 {
        let empty: Vec<ChatMessage> = Vec::new();
        assert(tail@ + empty@ =~= tail@);
        assert(message_views(empty@) =~= Seq::<ChatMessageView>::empty());
        return (tail, empty);
    }
    let ghost keep = keep_pairs as nat;
    let mut pairs_seen: usize = 0;
    let mut start_index: usize = tail.len();
    let mut awaiting_user = false;
    let mut index: usize = tail.len();
    proof {
        lemma_tail_scan_bounds(ms, keep, 0);
    }
    while index > 0 && pairs_seen < keep_pairs
        invariant
            0 <= index <= tail.len(),
            ms == message_views(tail@),
            keep == keep_pairs as nat,
            keep_pairs > 0,
            tail_scan(ms, keep, index as int) == (TailScan {
                awaiting_user,
                pairs: pairs_seen as nat,
                start: start_index as int,
                done: pairs_seen >= keep_pairs,
            }),
            pairs_seen <= tail.len() - index,
        decreases index,
    {
        let i = index - 1;
        proof {
            lemma_tail_scan_bounds(ms, keep, index as int);
        }
        let m = &tail[i];
        if is_role(m, "assistant") && has_no_tool_calls(m) {
            awaiting_user = true;
        } else if is_role(m, "user") && awaiting_user {
            pairs_seen += 1;
            start_index = i;
            awaiting_user = false;
        }
        index = i;
    }
    proof {
        if pairs_seen >= keep_pairs {
            lemma_tail_scan_done_stays(ms, keep, index as int, 0);
        }
        lemma_tail_scan_bounds(ms, keep, 0);
    }
    if pairs_seen == 0 {
        let empty: Vec<ChatMessage> = Vec::new();
        assert(tail@ + empty@ =~= tail@);
        assert(message_views(empty@) =~= Seq::<ChatMessageView>::empty());
        return (tail, empty);
    }
    let mut compactable = tail;
    let kept = compactable.split_off(start_index);
    proof {
        assert(message_views(compactable@) =~= ms.take(start_index as int));
        assert(message_views(kept@) =~= ms.skip(start_index as int));
    }
    (compactable, kept)
}

// ---------------------------------------------------------------------------
// Texts
// ---------------------------------------------------------------------------

/// `text` cut to its first `limit` characters.
pub fn truncate_chars(text: String, limit: usize) -> (r: String)
    ensures
        r@ == if text@.len() <= limit {
            text@
        } else {
            text@.take(limit as int)
        },
{
    take_chars(text.as_str(), limit)
}

pub open spec fn compacted_context_text(transcript_id: Seq<char>, summary: Seq<char>) -> Seq<
    char,
> {
    "[Compressed context]\nSummary:\n"@ + summary + "\n\nFull uncompressed context transcript_id: "@
        + transcript_id
        + "\nIf this summary is not detailed enough, call the built-in context_transcript_get tool with this transcript_id to inspect the complete JSONL transcript before continuing."@
}

/// The user message that replaces a compacted conversation: the summary and how
/// to fetch the full transcript.
pub fn render_compacted_context_message(transcript_id: &str, summary: &str) -> (s: String)
    ensures
        s@ == compacted_context_text(transcript_id@, summary@),
{
    let mut s = concat2("[Compressed context]\nSummary:\n", summary);
    push_str(&mut s, "\n\nFull uncompressed context transcript_id: ");
    push_str(&mut s, transcript_id);
    push_str(
        &mut s,
        "\nIf this summary is not detailed enough, call the built-in context_transcript_get tool with this transcript_id to inspect the complete JSONL transcript before continuing.",
    );
    s
}

/// What a compaction produced: the new conversation, where the full transcript
/// was written, the summary, and how many messages were summarized and kept.
pub struct CompactionOutcome {
    pub messages: Vec<ChatMessage>,
    pub transcript_id: String,
    pub transcript_path: String,
    pub summary: String,
    pub compacted_message_count: usize,
    pub kept_message_count: usize,
}

pub const COMPACTION_ACK: &'static str = "Understood. Continuing with summary context.";

pub const NO_SUMMARY: &'static str = "(no summary)";

/// The summary kept from the summarizer's reply: the reply unless it is missing
/// or blank.
pub open spec fn summary_text(reply: Option<Seq<char>>) -> Seq<char> {
    match reply {
        Some(s) => if trim_seq(s).len() > 0 {
            s
        } else {
            NO_SUMMARY@
        },
        None => NO_SUMMARY@,
    }
}

pub fn summary_or_default(reply: Option<String>) -> (s: String)
    ensures
        s@ == summary_text(opt_text(reply)),
{
    match reply {
        Some(text) => {
            if is_blank(text.as_str()) {
                owned(NO_SUMMARY)
            } else {
                text
            }
        },
        None => owned(NO_SUMMARY),
    }
}

/// The conversation after a compaction: the system message, the summary as a
/// user message, the assistant's acknowledgement, then the kept tail.
pub open spec fn compacted_views(
    system: ChatMessageView,
    transcript_id: Seq<char>,
    summary: Seq<char>,
    kept: Seq<ChatMessageView>,
) -> Seq<ChatMessageView> {
    seq![
        system,
        ChatMessage::user_view(compacted_context_text(transcript_id, summary)),
        ChatMessage::assistant_view(COMPACTION_ACK@),
    ] + kept
}

pub fn compacted_conversation(
    system: ChatMessage,
    transcript_id: &str,
    summary: &str,
    kept_tail: Vec<ChatMessage>,
) -> (r: Vec<ChatMessage>)
    ensures
        message_views(r@) == compacted_views(
            system@,
            transcript_id@,
            summary@,
            message_views(kept_tail@),
        ),
{
    let ghost sys = system@;
    let mut r: Vec<ChatMessage> = Vec::new();
    r.push(system);
    let context = render_compacted_context_message(transcript_id, summary);
    r.push(ChatMessage::user(context.as_str()));
    r.push(ChatMessage::assistant(Some(owned(COMPACTION_ACK)), Vec::new()));
    let ghost head = r@;
    let mut kept = kept_tail;
    r.append(&mut kept);
    proof {
        let want = compacted_views(sys, transcript_id@, summary@, message_views(kept_tail@));
        assert(message_views(r@) =~= want) by {
            assert(r@ == head + kept_tail@);
            assert forall|i: int| 0 <= i < want.len() implies #[trigger] message_views(r@)[i]
                == want[i] by {
                if i >= 3 {
                    assert(r@[i] == kept_tail@[i - 3]);
                }
            }
        }
    }
    r
}

/// The outcome for an empty conversation: nothing summarized, nothing kept.
pub fn empty_compaction(transcript_dir: String) -> (o: CompactionOutcome)
    ensures
        o.messages@.len() == 0,
        o.transcript_id@.len() == 0,
        o.transcript_path == transcript_dir,
        o.summary@.len() == 0,
        o.compacted_message_count == 0,
        o.kept_message_count == 0,
{
    CompactionOutcome {
        messages: Vec::new(),
        transcript_id: String::new(),
        transcript_path: transcript_dir,
        summary: String::new(),
        compacted_message_count: 0,
        kept_message_count: 0,
    }
}

/// Puts the compaction together once the summarized part was written to a
/// transcript and the summarizer replied.
pub fn finish_compaction(
    system: ChatMessage,
    compacted_message_count: usize,
    kept_tail: Vec<ChatMessage>,
    transcript_id: String,
    transcript_path: String,
    reply: Option<String>,
) -> (o: CompactionOutcome)
    ensures
        o.summary@ == summary_text(opt_text(reply)),
        message_views(o.messages@) == compacted_views(
            system@,
            transcript_id@,
            o.summary@,
            message_views(kept_tail@),
        ),
        o.transcript_id == transcript_id,
        o.transcript_path == transcript_path,
        o.compacted_message_count == compacted_message_count,
        o.kept_message_count == kept_tail@.len(),
{
    let summary = summary_or_default(reply);
    let kept_message_count = kept_tail.len();
    let messages = compacted_conversation(
        system,
        transcript_id.as_str(),
        summary.as_str(),
        kept_tail,
    );
    CompactionOutcome {
        messages,
        transcript_id,
        transcript_path,
        summary,
        compacted_message_count,
        kept_message_count,
    }
}

/// Transcript ids use only ASCII letters, digits, `_` and `-`.
pub open spec fn safe_transcript_char(c: char) -> bool {
    is_ascii_alnum(c) || c == '_' || c == '-'
}

pub fn is_safe_transcript_id(value: &str) -> (b: bool)
    ensures
        b == forall|i: int| 0 <= i < value@.len() ==> safe_transcript_char(#[trigger] value@[i]),
{
    let v = chars_of(value);
    let mut i: usize = 0;
    while i < v.len()
        invariant
            0 <= i <= v.len(),
            v@ == value@,
            forall|j: int| 0 <= j < i ==> safe_transcript_char(#[trigger] v@[j]),
        decreases v.len() - i,
    {
        let c = v[i];
        if !(is_ascii_alnum_char(c) || c == '_' || c == '-') {
            assert(!safe_transcript_char(value@[i as int]));
            return false;
        }
        i += 1;
    }
    true
}

} // verus!

verus! {

// ---------------------------------------------------------------------------
// Reading a transcript back
// ---------------------------------------------------------------------------

/// Where transcripts are written, under the repository.
pub const TRANSCRIPTS_DIR: &'static str = ".transcripts";

/// The file of a transcript.
pub fn transcript_file(repo_root: &str, transcript_id: &str) -> (p: String)
    ensures
        p@ == join_path_seq(join_path_seq(repo_root@, TRANSCRIPTS_DIR@), transcript_id@ + ".jsonl"@),
{
    let dir = join_path(repo_root, TRANSCRIPTS_DIR);
    let file = concat2(transcript_id, ".jsonl");
    join_path(dir.as_str(), file.as_str())
}

/// The transcript id a call asks for: trimmed, not blank, and made of ASCII
/// letters, digits, `_` and `-` only.
pub fn transcript_request(transcript_id: Option<&str>) -> (r: Result<String, String>)
    ensures
        match transcript_id {
            Some(id) => if trim_seq(id@).len() == 0 {
                r matches Err(e) && e@ == "context_transcript_get requires a non-empty transcript_id"@
            } else if !(forall|i: int|
                0 <= i < trim_seq(id@).len() ==> safe_transcript_char(#[trigger] trim_seq(id@)[i])) {
                r matches Err(e) && e@ == "invalid transcript_id"@
            } else {
                r matches Ok(t) && t@ == trim_seq(id@)
            },
            None => r matches Err(e) && e@ == "context_transcript_get requires a non-empty transcript_id"@,
        },
{
    let id = match transcript_id {
        Some(id) => trim(id),
        None => {
            return Err(owned("context_transcript_get requires a non-empty transcript_id"));
        },
    };
    if is_empty_text(id.as_str()) {
        return Err(owned("context_transcript_get requires a non-empty transcript_id"));
    }
    if !is_safe_transcript_id(id.as_str()) {
        return Err(owned("invalid transcript_id"));
    }
    Ok(id)
}

/// The `limit` argument of a transcript read, as the call gave it.
#[derive(Debug, Clone, Copy, PartialEq, Eq)]
pub enum LineLimitArg {
    Absent,
    Null,
    Integer(i64),
    Other,
}

/// How many lines of a transcript to show: all with no limit, a null one or
/// one that is not positive; a limit that is no integer is refused.
pub fn optional_line_limit(limit: LineLimitArg) -> (r: Result<Option<usize>, String>)
    ensures
        match limit {
            LineLimitArg::Absent => r == Ok::<Option<usize>, String>(None),
            LineLimitArg::Null => r == Ok::<Option<usize>, String>(None),
            LineLimitArg::Integer(n) => if n <= 0 {
                r == Ok::<Option<usize>, String>(None)
            } else if n > usize::MAX {
                r matches Err(e) && e@ == "context_transcript_get limit is too large"@
            } else {
                r == Ok::<Option<usize>, String>(Some(n as usize))
            },
            LineLimitArg::Other => r matches Err(e) && e@
                == "context_transcript_get limit must be an integer"@,
        },
{
    match limit {
        LineLimitArg::Absent => Ok(None),
        LineLimitArg::Null => Ok(None),
        LineLimitArg::Integer(n) => {
            if n <= 0 {
                Ok(None)
            } else if n as u64 > usize::MAX as u64 {
                Err(owned("context_transcript_get limit is too large"))
            } else {
                Ok(Some(n as usize))
            }
        },
        LineLimitArg::Other => Err(owned("context_transcript_get limit must be an integer")),
    }
}

/// The lines of a transcript that are shown, and whether some were cut: at
/// most `limit` lines, then a line that says how many more there are.
pub open spec fn shown_lines(ls: Seq<Seq<char>>, limit: Option<usize>) -> (Seq<Seq<char>>, bool) {
    match limit {
        Some(n) => if n < ls.len() {
            (
                ls.take(n as int).push("... ("@ + decimal((ls.len() - n) as nat) + " more)"@),
                true,
            )
        } else {
            (ls, false)
        },
        None => (ls, false),
    }
}

pub fn transcript_lines(content: &str, limit: Option<usize>) -> (r: (String, bool))
    ensures
        r.0@ == join_newline(shown_lines(lines_of(content@), limit).0),
        r.1 == shown_lines(lines_of(content@), limit).1,
{
    let mut ls = lines(content);
    let ghost all = lines_of(content@);
    let truncated = match limit {
        Some(n) => {
            if n < ls.len() {
                let remaining = ls.len() - n;
                ls.truncate(n);
                let mut more = concat2("... (", usize_to_decimal(remaining).as_str());
                push_str(&mut more, " more)");
                let ghost mv = more@;
                let ghost before = ls@.map_values(|l: String| l@);
                ls.push(more);
                assert(ls@.map_values(|l: String| l@) =~= before.push(mv));
                assert(before =~= all.take(n as int));
                true
            } else {
                false
            }
        },
        None => false,
    };
    (join_with_newlines(&ls), truncated)
}

/// What a transcript read answers, as `serde_json::to_string_pretty` writes
/// the object (its keys in order).
pub open spec fn transcript_answer(
    transcript_id: Seq<char>,
    path: Seq<char>,
    truncated: bool,
    content: Seq<char>,
) -> Seq<char> {
    "{\n  \"content_jsonl\": "@ + json_quoted(content) + ",\n  \"path\": "@ + json_quoted(path)
        + ",\n  \"transcript_id\": "@ + json_quoted(transcript_id) + ",\n  \"truncated\": "@ + (
    if truncated {
        "true"@
    } else {
        "false"@
    }) + "\n}"@
}

pub fn render_transcript(transcript_id: &str, path: &str, truncated: bool, content: &str) -> (s:
    String)
    ensures
        s@ == transcript_answer(transcript_id@, path@, truncated, content@),
{
    let mut s = owned("{\n  \"content_jsonl\": ");
    push_json_string(&mut s, content);
    push_str(&mut s, ",\n  \"path\": ");
    push_json_string(&mut s, path);
    push_str(&mut s, ",\n  \"transcript_id\": ");
    push_json_string(&mut s, transcript_id);
    push_str(&mut s, ",\n  \"truncated\": ");
    if truncated {
        push_str(&mut s, "true");
    } else {
        push_str(&mut s, "false");
    }
    push_str(&mut s, "\n}");
    s
}

/// What a compaction decided, as compact JSON with the keys in order.
pub open spec fn compaction_payload_text(d: CompactionDecision) -> Seq<char> {
    match d {
        CompactionDecision::Skip { token_estimate, qa_pairs } => "{\"decision\":\"skip\",\"qa_pairs\":"@
            + decimal(qa_pairs as nat) + ",\"reason\":"@ + json_quoted(d.reason_text())
            + ",\"token_estimate\":"@ + decimal(token_estimate as nat) + "}"@,
        CompactionDecision::CompactAll { token_estimate, qa_pairs } =>
            "{\"decision\":\"compact_all\",\"qa_pairs\":"@ + decimal(qa_pairs as nat)
            + ",\"reason\":"@ + json_quoted(d.reason_text()) + ",\"token_estimate\":"@ + decimal(
            token_estimate as nat,
        ) + "}"@,
        CompactionDecision::KeepRecentQa { token_estimate, qa_pairs, keep_pairs } =>
            "{\"decision\":\"keep_recent_qa\",\"keep_pairs\":"@ + decimal(keep_pairs as nat)
            + ",\"qa_pairs\":"@ + decimal(qa_pairs as nat) + ",\"reason\":"@ + json_quoted(
            d.reason_text(),
        ) + ",\"token_estimate\":"@ + decimal(token_estimate as nat) + "}"@,
    }
}

pub fn build_compaction_payload(decision: &CompactionDecision) -> (s: String)
    ensures
        s@ == compaction_payload_text(*decision),
{
    let reason = decision.reason();
    match decision {
        CompactionDecision::Skip { token_estimate, qa_pairs } => {
            let mut s = owned("{\"decision\":\"skip\",\"qa_pairs\":");
            push_str(&mut s, usize_to_decimal(*qa_pairs).as_str());
            push_str(&mut s, ",\"reason\":");
            push_json_string(&mut s, reason);
            push_str(&mut s, ",\"token_estimate\":");
            push_str(&mut s, usize_to_decimal(*token_estimate).as_str());
            push_str(&mut s, "}");
            s
        },
        CompactionDecision::CompactAll { token_estimate, qa_pairs } => {
            let mut s = owned("{\"decision\":\"compact_all\",\"qa_pairs\":");
            push_str(&mut s, usize_to_decimal(*qa_pairs).as_str());
            push_str(&mut s, ",\"reason\":");
            push_json_string(&mut s, reason);
            push_str(&mut s, ",\"token_estimate\":");
            push_str(&mut s, usize_to_decimal(*token_estimate).as_str());
            push_str(&mut s, "}");
            s
        },
        CompactionDecision::KeepRecentQa { token_estimate, qa_pairs, keep_pairs } => {
            let mut s = owned("{\"decision\":\"keep_recent_qa\",\"keep_pairs\":");
            push_str(&mut s, usize_to_decimal(*keep_pairs).as_str());
            push_str(&mut s, ",\"qa_pairs\":");
            push_str(&mut s, usize_to_decimal(*qa_pairs).as_str());
            push_str(&mut s, ",\"reason\":");
            push_json_string(&mut s, reason);
            push_str(&mut s, ",\"token_estimate\":");
            push_str(&mut s, usize_to_decimal(*token_estimate).as_str());
            push_str(&mut s, "}");
            s
        },
    }
}

} // verus!

verus! {

/// The name and description of each context tool, in order.
pub open spec fn compaction_tool_entries() -> Seq<(Seq<char>, Seq<char>)> {
    seq![
        (COMPRESS_CONTEXT_TOOL@, "Compress older conversation context when the current context is too large. The system records this as a visible built-in tool call."@),
        (CONTEXT_TRANSCRIPT_GET_TOOL@, "Retrieve the full uncompressed JSONL transcript for a previous context compression by transcript_id."@),
        (LEGACY_COMPRESS_TOOL@, "Legacy alias for compress_context."@),
    ]
}

/// The parameters of the context tools, in order: name, schema text, whether required.
pub open spec fn compaction_tool_parameters() -> Seq<Seq<(Seq<char>, Seq<char>, bool)>> {
    seq![
        Seq::empty(),
        seq![("transcript_id"@, r#"{"type":"string","description":"Transcript id shown in the compressed context message."}"#@, true), ("limit"@, r#"{"type":"integer","description":"Optional max number of JSONL lines to return."}"#@, false)],
        Seq::empty(),
    ]
}

/// The context tools: compress the conversation, fetch a transcript, and the
/// older name of the first.
pub fn public_compaction_tool_schemas() -> (r: Vec<ToolSchema>)
    ensures
        schema_entries_of(r@) == compaction_tool_entries(),
        schema_parameters(r@) == compaction_tool_parameters(),
{
    let mut r: Vec<ToolSchema> = Vec::new();
    r.push(tool_schema(
        COMPRESS_CONTEXT_TOOL,
        "Compress older conversation context when the current context is too large. The system records this as a visible built-in tool call.",
        Vec::new(),
    ));
    r.push(tool_schema(
        CONTEXT_TRANSCRIPT_GET_TOOL,
        "Retrieve the full uncompressed JSONL transcript for a previous context compression by transcript_id.",
        vec![
            tool_parameter(
                "transcript_id",
                r#"{"type":"string","description":"Transcript id shown in the compressed context message."}"#,
                true,
            ),
            tool_parameter(
                "limit",
                r#"{"type":"integer","description":"Optional max number of JSONL lines to return."}"#,
                false,
            ),
        ],
    ));
    r.push(tool_schema(LEGACY_COMPRESS_TOOL, "Legacy alias for compress_context.", Vec::new()));
    assert(schema_parameters(r@) =~~= compaction_tool_parameters());
    assert(schema_entries_of(r@) =~= compaction_tool_entries());
    r
}

} // verus!
