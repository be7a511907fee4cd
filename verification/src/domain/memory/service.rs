use vstd::prelude::*;

use crate::domain::chat::tool_schema::{schema_entries_of, schema_parameters, tool_parameter, tool_schema, ToolSchema};
use crate::domain::harness::{render_template, rendered_template};
use crate::domain::memory::models::UserMemorySnapshot;
use crate::json::{json_str_field, json_string_field};
use crate::text::{
    join_newline, join_with_newlines, byte_len, chars_of, concat2, decimal, is_blank, is_empty_text, owned, push_char, push_str,
    replace_all, replace_seq, str_eq, take_chars, trim, trim_end, trim_end_seq, trim_seq,
    usize_to_decimal, utf8_len,
};

verus! {

/// Size limit of USER.md, in bytes.
pub const USER_MD_LIMIT: usize = 1375;

/// Size limit of MEMORY.md, in bytes.
pub const MEMORY_MD_LIMIT: usize = 2200;

/// Characters of the user message and of the reply handed to the maintainer.
pub const MAINTENANCE_CLIP_CHARS: usize = 5_000;

// ---------------------------------------------------------------------------
// The system prompt with the user's memory
// ---------------------------------------------------------------------------

pub open spec fn profile_block(user_md: Seq<char>) -> Seq<char> {
    "<user_profile>\nLoaded from USER.md at session start. Treat as stable user guidance until the next session.\n"@
        + user_md + "\n</user_profile>"@
}

pub open spec fn workspace_memory_block(memory_md: Seq<char>) -> Seq<char> {
    "<workspace_memory>\nLoaded from MEMORY.md at session start. Treat as reusable project context until the next session.\n"@
        + memory_md + "\n</workspace_memory>"@
}

/// The system prompt of a session: the base prompt, then a block for each
/// memory file of the snapshot that is not empty.
pub open spec fn memory_system_text(
    base: Seq<char>,
    snapshot: Option<(Seq<char>, Seq<char>)>,
) -> Seq<char> {
    match snapshot {
        None => base,
        Some((user_md, memory_md)) => if user_md.len() == 0 && memory_md.len() == 0 {
            base
        } else if memory_md.len() == 0 {
            base + "\n\n"@ + profile_block(user_md)
        } else if user_md.len() == 0 {
            base + "\n\n"@ + workspace_memory_block(memory_md)
        } else {
            base + "\n\n"@ + profile_block(user_md) + "\n\n"@ + workspace_memory_block(memory_md)
        },
    }
}

pub open spec fn snapshot_texts(snapshot: Option<&UserMemorySnapshot>) -> Option<
    (Seq<char>, Seq<char>),
> {
    match snapshot {
        Some(s) => Some((s.user_md@, s.memory_md@)),
        None => None,
    }
}

pub fn build_user_memory_system(base_system: &str, snapshot: Option<&UserMemorySnapshot>) -> (s:
    String)
    ensures
        s@ == memory_system_text(base_system@, snapshot_texts(snapshot)),
{
    match snapshot {
        None => owned(base_system),
        Some(snap) => {
            let has_user = !is_empty_text(snap.user_md.as_str());
            let has_memory = !is_empty_text(snap.memory_md.as_str());
            if !has_user && !has_memory {
                return owned(base_system);
            }
            let mut s = concat2(base_system, "\n\n");
            if has_user {
                push_str(
                    &mut s,
                    "<user_profile>\nLoaded from USER.md at session start. Treat as stable user guidance until the next session.\n",
                );
                push_str(&mut s, snap.user_md.as_str());
                push_str(&mut s, "\n</user_profile>");
            }
            if has_user && has_memory {
                push_str(&mut s, "\n\n");
            }
            if has_memory {
                push_str(
                    &mut s,
                    "<workspace_memory>\nLoaded from MEMORY.md at session start. Treat as reusable project context until the next session.\n",
                );
                push_str(&mut s, snap.memory_md.as_str());
                push_str(&mut s, "\n</workspace_memory>");
            }
            s
        },
    }
}

// ---------------------------------------------------------------------------
// Texts handed to the maintainer
// ---------------------------------------------------------------------------

/// What a read tool answers: a header with the size in bytes and the limit,
/// then the content, or `(empty)`.
pub open spec fn memory_file_text(label: Seq<char>, current: Seq<char>, limit: usize) -> Seq<char> {
    label + " ("@ + decimal(utf8_len(current)) + "/"@ + decimal(limit as nat) + " chars)\n"@ + (
    if current.len() == 0 {
        "(empty)"@
    } else {
        current
    })
}

pub fn read_memory_file(label: &str, current: &str, limit: usize) -> (s: String)
    ensures
        s@ == memory_file_text(label@, current@, limit),
{
    let mut s = concat2(label, " (");
    let n = byte_len(current);
    push_str(&mut s, usize_to_decimal(n).as_str());
    push_str(&mut s, "/");
    push_str(&mut s, usize_to_decimal(limit).as_str());
    push_str(&mut s, " chars)\n");
    if is_empty_text(current) {
        push_str(&mut s, "(empty)");
    } else {
        push_str(&mut s, current);
    }
    s
}

/// A text cut to `limit` characters, marked as truncated when it was cut.
pub open spec fn clipped_text(text: Seq<char>, limit: usize) -> Seq<char> {
    if text.len() <= limit {
        text
    } else {
        trim_end_seq(text.take(limit as int)) + "\n...[truncated]"@
    }
}

pub fn clip_text(text: &str, limit: usize) -> (s: String)
    ensures
        s@ == clipped_text(text@, limit),
{
    let v = chars_of(text);
    if v.len() <= limit {
        return owned(text);
    }
    let clipped = take_chars(text, limit);
    let mut s = trim_end(clipped.as_str());
    push_str(&mut s, "\n...[truncated]");
    s
}

/// Whether a memory file is at least half of its limit (rounded down), when the
/// maintainer is asked to restructure it.
pub open spec fn restructure_due(current_len: nat, limit: nat) -> bool {
    current_len >= limit / 2
}

pub fn needs_restructure(current: &str, limit: usize) -> (b: bool)
    ensures
        b == restructure_due(utf8_len(current@), limit as nat),
{
    byte_len(current) >= limit / 2
}

/// The values put into the maintenance prompt template, in the order they are
/// replaced.
pub open spec fn maintenance_pairs(
    user_limit: usize,
    memory_limit: usize,
    user_restructure: Seq<char>,
    memory_restructure: Seq<char>,
    user_md_path: Seq<char>,
    memory_md_path: Seq<char>,
    current_user_len: usize,
    current_memory_len: usize,
    user_message: Seq<char>,
    assistant_reply: Seq<char>,
) -> Seq<(Seq<char>, Seq<char>)> {
    seq![
        ("user_limit"@, decimal(user_limit as nat)),
        ("memory_limit"@, decimal(memory_limit as nat)),
        ("user_restructure"@, user_restructure),
        ("memory_restructure"@, memory_restructure),
        ("user_md_path"@, user_md_path),
        ("memory_md_path"@, memory_md_path),
        ("current_user_len"@, decimal(current_user_len as nat)),
        ("current_memory_len"@, decimal(current_memory_len as nat)),
        ("user_message"@, user_message),
        ("assistant_reply"@, assistant_reply),
    ]
}

/// The maintenance prompt: each `{name}` of the template replaced, in turn.
pub fn render_memory_maintenance_prompt(
    template: &str,
    user_limit: usize,
    memory_limit: usize,
    user_restructure: &str,
    memory_restructure: &str,
    user_md_path: &str,
    memory_md_path: &str,
    current_user_len: usize,
    current_memory_len: usize,
    user_message: &str,
    assistant_reply: &str,
) -> (s: String)
    ensures
        s@ == rendered_template(
            template@,
            maintenance_pairs(
                user_limit,
                memory_limit,
                user_restructure@,
                memory_restructure@,
                user_md_path@,
                memory_md_path@,
                current_user_len,
                current_memory_len,
                user_message@,
                assistant_reply@,
            ),
        ),
{
    let mut pairs: Vec<(&str, String)> = Vec::new();
    pairs.push(("user_limit", usize_to_decimal(user_limit)));
    pairs.push(("memory_limit", usize_to_decimal(memory_limit)));
    pairs.push(("user_restructure", owned(user_restructure)));
    pairs.push(("memory_restructure", owned(memory_restructure)));
    pairs.push(("user_md_path", owned(user_md_path)));
    pairs.push(("memory_md_path", owned(memory_md_path)));
    pairs.push(("current_user_len", usize_to_decimal(current_user_len)));
    pairs.push(("current_memory_len", usize_to_decimal(current_memory_len)));
    pairs.push(("user_message", owned(user_message)));
    pairs.push(("assistant_reply", owned(assistant_reply)));
    let ghost want = maintenance_pairs(
        user_limit,
        memory_limit,
        user_restructure@,
        memory_restructure@,
        user_md_path@,
        memory_md_path@,
        current_user_len,
        current_memory_len,
        user_message@,
        assistant_reply@,
    );
    assert(pairs@.map_values(|p: (&str, String)| (p.0@, p.1@)) =~= want);
    render_template(template, &pairs)
}

/// The user whose memory is maintained after a turn: the id trimmed, when it
/// is not blank.
pub fn maintenance_user(user_id: Option<&str>) -> (r: Option<String>)
    ensures
        r matches Some(u) ==> user_id matches Some(id) && u@ == trim_seq(id@) && u@.len() > 0,
        r is None ==> (user_id is None || trim_seq(user_id->0@).len() == 0),
{
    match user_id {
        Some(id) => {
            let t = trim(id);
            if is_empty_text(t.as_str()) {
                None
            } else {
                Some(t)
            }
        },
        None => None,
    }
}

// ---------------------------------------------------------------------------
// Normalizing what the maintainer writes
// ---------------------------------------------------------------------------

/// The pieces of `s` after the partial piece `cur`, as `str::split('\n')`
/// gives them (an empty piece after a final line break included).
pub open spec fn pieces_from(s: Seq<char>, cur: Seq<char>) -> Seq<Seq<char>>
    decreases s.len(),
{
    if s.len() == 0 {
        seq![cur]
    } else if s[0] == '\n' {
        seq![cur] + pieces_from(s.drop_first(), Seq::empty())
    } else {
        pieces_from(s.drop_first(), cur.push(s[0]))
    }
}

/// `s.split('\n')`.
pub open spec fn newline_pieces(s: Seq<char>) -> Seq<Seq<char>> {
    pieces_from(s, Seq::empty())
}

fn split_newlines(s: &str) -> (out: Vec<String>)
    ensures
        out@.map_values(|l: String| l@) == newline_pieces(s@),
{
    let v = chars_of(s);
    let mut out: Vec<String> = Vec::new();
    let mut cur = String::new();
    let mut i: usize = 0;
    assert(v@.skip(0) =~= v@);
    while i < v.len()
        invariant
            0 <= i <= v.len(),
            v@ == s@,
            out@.map_values(|l: String| l@) + pieces_from(v@.skip(i as int), cur@)
                == newline_pieces(s@),
        decreases v.len() - i,
    {
        let c = v[i];
        let ghost rest = v@.skip(i as int);
        assert(rest.drop_first() =~= v@.skip(i + 1));
        assert(rest[0] == c);
        if c == '\n' {
            let ghost before = out@.map_values(|l: String| l@);
            let ghost piece = cur@;
            out.push(cur);
            assert(out@.map_values(|l: String| l@) =~= before.push(piece));
            assert(before + (seq![piece] + pieces_from(v@.skip(i + 1), Seq::empty())) =~= before.push(
                piece,
            ) + pieces_from(v@.skip(i + 1), Seq::empty()));
            cur = String::new();
        } else {
            push_char(&mut cur, c);
        }
        i += 1;
    }
    let ghost before = out@.map_values(|l: String| l@);
    let ghost piece = cur@;
    out.push(cur);
    assert(v@.skip(i as int) =~= Seq::<char>::empty());
    assert(out@.map_values(|l: String| l@) =~= before + pieces_from(Seq::empty(), piece));
    out
}

/// The lines with trailing white space removed and every run of blank lines
/// cut to one; blank lines at the start are dropped. `prev_blank` says whether
/// the line before was blank.
pub open spec fn compact_lines(ls: Seq<Seq<char>>, prev_blank: bool) -> Seq<Seq<char>>
    decreases ls.len(),
{
    if ls.len() == 0 {
        Seq::empty()
    } else {
        let t = trim_end_seq(ls[0]);
        let blank = trim_seq(t).len() == 0;
        if blank && prev_blank {
            compact_lines(ls.drop_first(), prev_blank)
        } else {
            seq![t] + compact_lines(ls.drop_first(), blank)
        }
    }
}

/// The form in which a memory file is stored: line breaks as `\n`, trailing
/// white space and repeated blank lines removed, the whole trimmed.
pub open spec fn normalized_text(text: Seq<char>) -> Seq<char> {
    trim_seq(join_newline(compact_lines(newline_pieces(replace_seq(text, "\r\n"@, "\n"@)), true)))
}

fn compact_pieces(pieces: &Vec<String>) -> (out: Vec<String>)
    ensures
        out@.map_values(|l: String| l@) == compact_lines(
            pieces@.map_values(|l: String| l@),
            true,
        ),
{
    let ghost ls = pieces@.map_values(|l: String| l@);
    let mut out: Vec<String> = Vec::new();
    let mut prev_blank = true;
    let mut i: usize = 0;
    assert(ls.skip(0) =~= ls);
    while i < pieces.len()
        invariant
            0 <= i <= pieces.len(),
            ls == pieces@.map_values(|l: String| l@),
            out@.map_values(|l: String| l@) + compact_lines(ls.skip(i as int), prev_blank)
                == compact_lines(ls, true),
        decreases pieces.len() - i,
    {
        let ghost rest = ls.skip(i as int);
        assert(rest.drop_first() =~= ls.skip(i + 1));
        assert(rest[0] == pieces@[i as int]@);
        let t = trim_end(pieces[i].as_str());
        let blank = is_blank(t.as_str());
        if !(blank && prev_blank) {
            let ghost before = out@.map_values(|l: String| l@);
            let ghost tv = t@;
            out.push(t);
            assert(out@.map_values(|l: String| l@) =~= before.push(tv));
            assert(before + (seq![tv] + compact_lines(ls.skip(i + 1), blank)) =~= before.push(tv)
                + compact_lines(ls.skip(i + 1), blank));
            prev_blank = blank;
        }
        i += 1;
    }
    assert(ls.skip(i as int) =~= Seq::<Seq<char>>::empty());
    assert(out@.map_values(|l: String| l@) + Seq::<Seq<char>>::empty() =~= out@.map_values(
        |l: String| l@,
    ));
    out
}

pub fn normalize_text(text: &str) -> (s: String)
    ensures
        s@ == normalized_text(text@),
{
    proof {
        reveal_strlit("\r\n");
    }
    let unified = replace_all(text, "\r\n", "\n");
    let pieces = split_newlines(unified.as_str());
    let kept = compact_pieces(&pieces);
    let joined = join_with_newlines(&kept);
    trim(joined.as_str())
}

// ---------------------------------------------------------------------------
// Writing a memory file
// ---------------------------------------------------------------------------

pub open spec fn too_long_text(label: Seq<char>, len: nat, limit: usize) -> Seq<char> {
    "Error: "@ + label + " content too long ("@ + decimal(len) + " > "@ + decimal(limit as nat)
        + "). Rewrite it more compactly and call the write tool again."@
}

pub open spec fn unchanged_text(label: Seq<char>, len: nat, limit: usize) -> Seq<char> {
    label + " unchanged ("@ + decimal(len) + "/"@ + decimal(limit as nat) + " chars)."@
}

pub open spec fn updated_text(label: Seq<char>, len: nat, limit: usize) -> Seq<char> {
    label + " updated ("@ + decimal(len) + "/"@ + decimal(limit as nat) + " chars)."@
}

/// Normalizes what the maintainer wants to write; a text over the limit (in
/// bytes) is refused with the reply the maintainer gets.
pub fn prepare_memory_write(label: &str, content: &str, limit: usize) -> (r: Result<
    String,
    String,
>)
    ensures
        r is Ok <==> utf8_len(normalized_text(content@)) <= limit,
        r matches Ok(n) ==> n@ == normalized_text(content@),
        r matches Err(e) ==> e@ == too_long_text(label@, utf8_len(normalized_text(content@)), limit),
{
    let normalized = normalize_text(content);
    let n = byte_len(normalized.as_str());
    if n > limit {
        let mut e = concat2("Error: ", label);
        push_str(&mut e, " content too long (");
        push_str(&mut e, usize_to_decimal(n).as_str());
        push_str(&mut e, " > ");
        push_str(&mut e, usize_to_decimal(limit).as_str());
        push_str(&mut e, "). Rewrite it more compactly and call the write tool again.");
        Err(e)
    } else {
        Ok(normalized)
    }
}

/// Whether the normalized text differs from what the file holds (and is to be
/// written), and the reply the maintainer gets.
pub fn memory_write_reply(label: &str, normalized: &str, limit: usize, current: &str) -> (r: (
    bool,
    String,
))
    ensures
        r.0 == (normalized@ != current@),
        r.1@ == if r.0 {
            updated_text(label@, utf8_len(normalized@), limit)
        } else {
            unchanged_text(label@, utf8_len(normalized@), limit)
        },
{
    let changed = !str_eq(normalized, current);
    let mut s = owned(label);
    if changed {
        push_str(&mut s, " updated (");
    } else {
        push_str(&mut s, " unchanged (");
    }
    push_str(&mut s, usize_to_decimal(byte_len(normalized)).as_str());
    push_str(&mut s, "/");
    push_str(&mut s, usize_to_decimal(limit).as_str());
    push_str(&mut s, " chars).");
    (changed, s)
}

// ---------------------------------------------------------------------------
// The maintainer's tools
// ---------------------------------------------------------------------------

/// Which memory files the maintainer has read in this round; a file may only
/// be written after it was read.
#[derive(Debug, Clone, Copy, PartialEq, Eq)]
pub struct MemoryReadState {
    pub user_read: bool,
    pub memory_read: bool,
}

impl MemoryReadState {
    pub fn new() -> (s: Self)
        ensures
            !s.user_read && !s.memory_read,
    {
        MemoryReadState { user_read: false, memory_read: false }
    }
}

/// What a call of one of the maintainer's tools asks for.
#[derive(Debug)]
pub enum MemoryToolStep {
    /// Read USER.md and answer with `read_memory_file`.
    ReadUser,
    /// Read MEMORY.md and answer with `read_memory_file`.
    ReadMemory,
    /// Write USER.md with this content.
    WriteUser { content: String },
    /// Write MEMORY.md with this content.
    WriteMemory { content: String },
    /// Answer the call with this text.
    Reply { text: String },
}

/// The `content` string argument of a tool call, or the empty text.
pub open spec fn content_argument(arguments: Seq<char>) -> Seq<char> {
    match json_string_field(arguments, "content"@) {
        Some(c) => c,
        None => Seq::empty(),
    }
}

/// Decides what a call of a maintainer's tool does and records the reads.
pub fn dispatch_memory_tool(state: &mut MemoryReadState, name: &str, arguments: &str) -> (step:
    MemoryToolStep)
    ensures
        name@ == "read_user_md"@ ==> step is ReadUser && *final(state) == (MemoryReadState {
            user_read: true,
            memory_read: old(state).memory_read,
        }),
        name@ == "read_memory_md"@ ==> step is ReadMemory && *final(state) == (MemoryReadState {
            user_read: old(state).user_read,
            memory_read: true,
        }),
        name@ == "write_user_md"@ && old(state).user_read ==> *final(state) == *old(state) && (
        step matches MemoryToolStep::WriteUser { content } && content@ == content_argument(
            arguments@,
        )),
        name@ == "write_user_md"@ && !old(state).user_read ==> *final(state) == *old(state) && (
        step matches MemoryToolStep::Reply { text } && text@
            == "Error: Read USER.md first before writing it."@),
        name@ == "write_memory_md"@ && old(state).memory_read ==> *final(state) == *old(state) && (
        step matches MemoryToolStep::WriteMemory { content } && content@ == content_argument(
            arguments@,
        )),
        name@ == "write_memory_md"@ && !old(state).memory_read ==> *final(state) == *old(state) && (
        step matches MemoryToolStep::Reply { text } && text@
            == "Error: Read MEMORY.md first before writing it."@),
        name@ != "read_user_md"@ && name@ != "read_memory_md"@ && name@ != "write_user_md"@
            && name@ != "write_memory_md"@ ==> *final(state) == *old(state) && (
        step matches MemoryToolStep::Reply { text } && text@ == "Error: Unknown tool "@ + name@),
{
    proof {
        reveal_strlit("read_user_md");
        reveal_strlit("read_memory_md");
        reveal_strlit("write_user_md");
        reveal_strlit("write_memory_md");
        assert("read_user_md"@.len() == 12);
        assert("read_memory_md"@.len() == 14);
        assert("write_user_md"@.len() == 13);
        assert("write_memory_md"@.len() == 15);
    }
    if str_eq(name, "read_user_md") {
        state.user_read = true;
        MemoryToolStep::ReadUser
    } else if str_eq(name, "read_memory_md") {
        state.memory_read = true;
        MemoryToolStep::ReadMemory
    } else if str_eq(name, "write_user_md") {
        if !state.user_read {
            return MemoryToolStep::Reply { text: owned("Error: Read USER.md first before writing it.") };
        }
        MemoryToolStep::WriteUser { content: content_or_empty(arguments) }
    } else if str_eq(name, "write_memory_md") {
        if !state.memory_read {
            return MemoryToolStep::Reply {
                text: owned("Error: Read MEMORY.md first before writing it."),
            };
        }
        MemoryToolStep::WriteMemory { content: content_or_empty(arguments) }
    } else {
        MemoryToolStep::Reply { text: concat2("Error: Unknown tool ", name) }
    }
}

fn content_or_empty(arguments: &str) -> (c: String)
    ensures
        c@ == content_argument(arguments@),
{
    match json_str_field(arguments, "content") {
        Some(c) => c,
        None => String::new(),
    }
}

} // verus!

verus! {

/// The parameters of the memory maintenance tools, in order: name, schema text, whether required.
pub open spec fn memory_tool_parameters() -> Seq<Seq<(Seq<char>, Seq<char>, bool)>> {
    seq![
        Seq::empty(),
        Seq::empty(),
        seq![("content"@, r#"{"type":"string","description":"The complete new USER.md content."}"#@, true)],
        seq![("content"@, r#"{"type":"string","description":"The complete new MEMORY.md content."}"#@, true)],
    ]
}

/// The tools of the memory maintenance turn: read and replace USER.md and
/// MEMORY.md.
pub fn memory_update_tools() -> (r: Vec<ToolSchema>)
    ensures
        schema_entries_of(r@) == seq![
            ("read_user_md"@, "Read the current contents of USER.md before deciding whether to update it."@),
            ("read_memory_md"@, "Read the current contents of MEMORY.md before deciding whether to update it."@),
            ("write_user_md"@, "Replace the full contents of USER.md with compact markdown."@),
            ("write_memory_md"@, "Replace the full contents of MEMORY.md with compact markdown."@),
        ],
        schema_parameters(r@) == memory_tool_parameters(),
{
    let mut r: Vec<ToolSchema> = Vec::new();
    r.push(tool_schema(
        "read_user_md",
        "Read the current contents of USER.md before deciding whether to update it.",
        Vec::new(),
    ));
    r.push(tool_schema(
        "read_memory_md",
        "Read the current contents of MEMORY.md before deciding whether to update it.",
        Vec::new(),
    ));
    r.push(tool_schema(
        "write_user_md",
        "Replace the full contents of USER.md with compact markdown.",
        vec![tool_parameter(
            "content",
            r#"{"type":"string","description":"The complete new USER.md content."}"#,
            true,
        )],
    ));
    r.push(tool_schema(
        "write_memory_md",
        "Replace the full contents of MEMORY.md with compact markdown.",
        vec![tool_parameter(
            "content",
            r#"{"type":"string","description":"The complete new MEMORY.md content."}"#,
            true,
        )],
    ));
    assert(schema_parameters(r@) =~~= memory_tool_parameters());
    assert(schema_entries_of(r@) =~= seq![
        ("read_user_md"@, "Read the current contents of USER.md before deciding whether to update it."@),
        ("read_memory_md"@, "Read the current contents of MEMORY.md before deciding whether to update it."@),
        ("write_user_md"@, "Replace the full contents of USER.md with compact markdown."@),
        ("write_memory_md"@, "Replace the full contents of MEMORY.md with compact markdown."@),
    ]);
    r
}

} // verus!
