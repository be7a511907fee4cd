use vstd::prelude::*;

use crate::api::errors::ApiError;
use crate::config::loader::{
    env_lookup, env_value, env_views, lemma_parse_bound, parse_unsigned, parse_unsigned_exec,
    NumberFault,
};
use crate::domain::chat::models::{HistoryEntry, HistoryEntryView};
use crate::json::{json_role_content, json_string_list, parse_json_string_list, parse_role_content};
use crate::lists::{norm_list, normalize_list, texts};
use crate::text::{
    chars_of, concat2, contains, contains_seq, is_ascii_alnum, is_ascii_alnum_char,
    is_empty_text, lower_seq, owned, push_char, str_eq, string_from_range, to_ascii_lowercase, trim,
    trim_seq,
};

verus! {

// ---------------------------------------------------------------------------
// Form fields of a chat request
// ---------------------------------------------------------------------------

/// A form value trimmed, or none when blank.
pub fn non_empty(value: String) -> (r: Option<String>)
    ensures
        trim_seq(value@).len() == 0 ==> r is None,
        trim_seq(value@).len() > 0 ==> (r matches Some(t) && t@ == trim_seq(value@)),
{
    let t = trim(value.as_str());
    if is_empty_text(t.as_str()) {
        None
    } else {
        Some(t)
    }
}

/// An optional whole number of a form: none when blank, else the trimmed text
/// read as a number up to `max`; other text is refused.
pub fn parse_optional_number(raw: &str, label: &str, max: u64) -> (r: Result<Option<u64>, ApiError>)
    ensures
        trim_seq(raw@).len() == 0 ==> r == Ok::<Option<u64>, ApiError>(None),
        trim_seq(raw@).len() > 0 ==> match parse_unsigned(trim_seq(raw@), max as nat) {
            Ok(v) => r matches Ok(Some(n)) && n == v,
            Err(_) => r matches Err(ApiError::BadRequest(m)) && m@ == label@ + " 格式不正确"@,
        },
{
    let t = trim(raw);
    if is_empty_text(t.as_str()) {
        return Ok(None);
    }
    match parse_unsigned_exec(t.as_str(), max) {
        Ok(v) => Ok(Some(v)),
        Err(_) => Err(ApiError::bad_request(concat2(label, " 格式不正确"))),
    }
}

pub open spec fn mcp_urls_result(raw: Option<Seq<char>>) -> Result<Seq<Seq<char>>, Seq<char>> {
    let t = match raw {
        Some(r) => trim_seq(r),
        None => Seq::empty(),
    };
    if t.len() == 0 {
        Ok(Seq::empty())
    } else {
        match json_string_list(t) {
            Some(items) => Ok(norm_list(items)),
            None => Err("mcp_base_urls 必须是字符串数组 JSON"@),
        }
    }
}

/// A list of MCP server addresses given as a JSON array: nothing when missing
/// or blank; otherwise the addresses trimmed, blank ones and repeats dropped;
/// a text that is no array of strings is refused.
pub fn parse_mcp_base_urls(raw: Option<&str>) -> (r: Result<Vec<String>, ApiError>)
    ensures
        match r {
            Ok(v) => mcp_urls_result(
                match raw {
                    Some(s) => Some(s@),
                    None => None,
                },
            ) == Ok::<Seq<Seq<char>>, Seq<char>>(texts(v@)),
            Err(e) => e matches ApiError::BadRequest(m) && mcp_urls_result(
                match raw {
                    Some(s) => Some(s@),
                    None => None,
                },
            ) == Err::<Seq<Seq<char>>, Seq<char>>(m@),
        },
{
    let t = match raw {
        Some(s) => trim(s),
        None => String::new(),
    };
    if is_empty_text(t.as_str()) {
        let v: Vec<String> = Vec::new();
        assert(texts(v@) =~= Seq::<Seq<char>>::empty());
        return Ok(v);
    }
    match parse_json_string_list(t.as_str()) {
        Some(items) => Ok(normalize_list(&items)),
        None => Err(ApiError::bad_request(owned("mcp_base_urls 必须是字符串数组 JSON"))),
    }
}

/// The entries of a history given as a JSON array: the `role` (trimmed) and
/// `content` strings of each item, items without either left out.
pub open spec fn history_entries(items: Seq<(Option<Seq<char>>, Option<Seq<char>>)>) -> Seq<
    HistoryEntryView,
>
    decreases items.len(),
{
    if items.len() == 0 {
        Seq::empty()
    } else {
        let prev = history_entries(items.drop_last());
        let role = match items.last().0 {
            Some(r) => trim_seq(r),
            None => Seq::empty(),
        };
        let content = match items.last().1 {
            Some(c) => c,
            None => Seq::empty(),
        };
        if role.len() == 0 || content.len() == 0 {
            prev
        } else {
            prev.push(HistoryEntryView { role, content })
        }
    }
}

pub fn parse_history(raw: &str) -> (r: Result<Vec<HistoryEntry>, ApiError>)
    ensures
        match json_role_content(raw@) {
            None => r matches Err(ApiError::BadRequest(m)) && m@ == "history 必须是合法 JSON"@,
            Some(None) => r matches Err(ApiError::BadRequest(m)) && m@ == "history 必须是数组"@,
            Some(Some(items)) => r matches Ok(v) && v@.map_values(|h: HistoryEntry| h@)
                == history_entries(items),
        },
{
    let items = match parse_role_content(raw) {
        None => {
            return Err(ApiError::bad_request(owned("history 必须是合法 JSON")));
        },
        Some(None) => {
            return Err(ApiError::bad_request(owned("history 必须是数组")));
        },
        Some(Some(items)) => items,
    };
    let ghost iv = items@.map_values(
        |p: (Option<String>, Option<String>)|
            (
                match p.0 {
                    Some(s) => Some(s@),
                    None => None,
                },
                match p.1 {
                    Some(s) => Some(s@),
                    None => None,
                },
            ),
    );
    let mut history: Vec<HistoryEntry> = Vec::new();
    let mut i: usize = 0;
    while i < items.len()
        invariant
            0 <= i <= items.len(),
            iv == items@.map_values(
                |p: (Option<String>, Option<String>)|
                    (
                        match p.0 {
                            Some(s) => Some(s@),
                            None => None,
                        },
                        match p.1 {
                            Some(s) => Some(s@),
                            None => None,
                        },
                    ),
            ),
            history@.map_values(|h: HistoryEntry| h@) == history_entries(iv.take(i as int)),
        decreases items.len() - i,
    {
        assert(iv.take(i + 1).drop_last() =~= iv.take(i as int));
        assert(iv.take(i + 1).last() == iv[i as int]);
        let role = match &items[i].0 {
            Some(r) => trim(r.as_str()),
            None => String::new(),
        };
        let content = match &items[i].1 {
            Some(c) => owned(c.as_str()),
            None => String::new(),
        };
        if !is_empty_text(role.as_str()) && !is_empty_text(content.as_str()) {
            let ghost before = history@.map_values(|h: HistoryEntry| h@);
            let entry = HistoryEntry { role, content };
            let ghost ev = entry@;
            history.push(entry);
            assert(history@.map_values(|h: HistoryEntry| h@) =~= before.push(ev));
        }
        i += 1;
    }
    assert(iv.take(items.len() as int) =~= iv);
    Ok(history)
}

// ---------------------------------------------------------------------------
// File names
// ---------------------------------------------------------------------------

/// `c` kept when it is an ASCII letter or digit, else `_`.
pub open spec fn safe_char(c: char) -> char {
    if is_ascii_alnum(c) {
        c
    } else {
        '_'
    }
}

pub open spec fn strip_underscores_start(s: Seq<char>) -> Seq<char>
    decreases s.len(),
{
    if s.len() > 0 && s[0] == '_' {
        strip_underscores_start(s.drop_first())
    } else {
        s
    }
}

pub open spec fn strip_underscores_end(s: Seq<char>) -> Seq<char>
    decreases s.len(),
{
    if s.len() > 0 && s.last() == '_' {
        strip_underscores_end(s.drop_last())
    } else {
        s
    }
}

/// A name made safe for a file name: every character but ASCII letters and
/// digits turned into `_`, then leading and trailing `_` removed.
pub open spec fn filesafe(name: Seq<char>) -> Seq<char> {
    strip_underscores_end(strip_underscores_start(name.map_values(|c: char| safe_char(c))))
}

proof fn lemma_strip_start_at(s: Seq<char>, i: int)
    requires
        0 <= i <= s.len(),
        forall|k: int| 0 <= k < i ==> s[k] == '_',
    ensures
        strip_underscores_start(s) == strip_underscores_start(s.skip(i)),
    decreases i,
{
    if i > 0 {
        assert(s.drop_first().skip(i - 1) =~= s.skip(i));
        lemma_strip_start_at(s.drop_first(), i - 1);
    } else {
        assert(s.skip(0) =~= s);
    }
}

proof fn lemma_strip_end_at(s: Seq<char>, j: int)
    requires
        0 <= j <= s.len(),
        forall|k: int| j <= k < s.len() ==> s[k] == '_',
    ensures
        strip_underscores_end(s) == strip_underscores_end(s.take(j)),
    decreases s.len() - j,
{
    if j < s.len() {
        assert(s.drop_last().take(j) =~= s.take(j));
        lemma_strip_end_at(s.drop_last(), j);
    } else {
        assert(s.take(j) =~= s);
    }
}

pub fn filesafe_fragment(name: &str) -> (r: String)
    ensures
        r@ == filesafe(name@),
{
    let v = chars_of(name);
    let ghost mapped = name@.map_values(|c: char| safe_char(c));
    let mut m: Vec<char> = Vec::new();
    let mut i: usize = 0;
    while i < v.len()
        invariant
            0 <= i <= v.len(),
            v@ == name@,
            mapped == name@.map_values(|c: char| safe_char(c)),
            m@ == mapped.take(i as int),
        decreases v.len() - i,
    {
        let c = v[i];
        if is_ascii_alnum_char(c) {
            m.push(c);
        } else {
            m.push('_');
        }
        assert(m@ =~= mapped.take(i + 1));
        i += 1;
    }
    assert(mapped.take(v.len() as int) =~= mapped);
    let mut lo: usize = 0;
    while lo < m.len() && m[lo] == '_'
        invariant
            0 <= lo <= m.len(),
            m@ == mapped,
            forall|k: int| 0 <= k < lo ==> m@[k] == '_',
        decreases m.len() - lo,
    {
        lo += 1;
    }
    proof {
        lemma_strip_start_at(mapped, lo as int);
    }
    let ghost rest = mapped.skip(lo as int);
    assert(strip_underscores_start(rest) == rest) by {
        if rest.len() > 0 {
            assert(rest[0] == m@[lo as int]);
        }
    }
    let mut hi: usize = m.len();
    while hi > lo && m[hi - 1] == '_'
        invariant
            lo <= hi <= m.len(),
            m@ == mapped,
            forall|k: int| hi <= k < m.len() ==> m@[k] == '_',
        decreases hi,
    {
        hi -= 1;
    }
    proof {
        let len = (m.len() - lo) as int;
        assert forall|k: int| (hi - lo) as int <= k < rest.len() implies rest[k] == '_' by {
            assert(rest[k] == m@[lo + k]);
        }
        lemma_strip_end_at(rest, (hi - lo) as int);
        let cut = rest.take((hi - lo) as int);
        assert(strip_underscores_end(cut) == cut) by {
            if cut.len() > 0 {
                assert(cut.last() == m@[hi - 1]);
            }
        }
        assert(cut =~= m@.subrange(lo as int, hi as int));
    }
    string_from_range(&m, lo, hi)
}

// ---------------------------------------------------------------------------
// Steering requests
// ---------------------------------------------------------------------------

/// How the body of a steering request is to be read.
#[derive(Debug, Clone, Copy, PartialEq, Eq)]
pub enum SteeringBody {
    Json,
    Form,
}

/// How a steering request's body is read, from its method and content type
/// (lower-cased): JSON when the type names JSON, a form when it names a form
/// or is missing; other methods and types are refused.
pub fn steering_body_kind(is_post: bool, content_type: Option<&str>) -> (r: Result<
    SteeringBody,
    ApiError,
>)
    ensures
        !is_post ==> (r matches Err(ApiError::BadRequest(m)) && m@ == "仅支持 POST"@),
        is_post ==> {
            let ct = match content_type {
                Some(c) => lower_seq(c@),
                None => Seq::empty(),
            };
            if contains_seq(ct, "application/json"@) {
                r == Ok::<SteeringBody, ApiError>(SteeringBody::Json)
            } else if contains_seq(ct, "application/x-www-form-urlencoded"@) || ct.len() == 0 {
                r == Ok::<SteeringBody, ApiError>(SteeringBody::Form)
            } else {
                r matches Err(ApiError::BadRequest(m)) && m@ == "不支持的 steering Content-Type: "@
                    + ct
            }
        },
{
    if !is_post {
        return Err(ApiError::bad_request(owned("仅支持 POST")));
    }
    let ct = match content_type {
        Some(c) => to_ascii_lowercase(c),
        None => String::new(),
    };
    if contains(ct.as_str(), "application/json") {
        return Ok(SteeringBody::Json);
    }
    if contains(ct.as_str(), "application/x-www-form-urlencoded") || is_empty_text(ct.as_str()) {
        return Ok(SteeringBody::Form);
    }
    Err(ApiError::bad_request(concat2("不支持的 steering Content-Type: ", ct.as_str())))
}

/// The text of a steering request: its content trimmed; blank content is
/// refused.
pub fn steering_content(content: &str) -> (r: Result<String, ApiError>)
    ensures
        trim_seq(content@).len() == 0 ==> (r matches Err(ApiError::BadRequest(m)) && m@
            == "content 不能为空"@),
        trim_seq(content@).len() > 0 ==> (r matches Ok(t) && t@ == trim_seq(content@)),
{
    let t = trim(content);
    if is_empty_text(t.as_str()) {
        return Err(ApiError::bad_request(owned("content 不能为空")));
    }
    Ok(t)
}

/// The refusal of steering when no agent run is going on in the session.
pub fn steering_without_run() -> (e: ApiError)
    ensures
        e matches ApiError::BadRequest(m) && m@ == "当前没有正在运行的 agent，无法注入 steering"@,
{
    ApiError::bad_request(owned("当前没有正在运行的 agent，无法注入 steering"))
}

} // verus!

verus! {

// ---------------------------------------------------------------------------
// The text fields of a chat form
// ---------------------------------------------------------------------------

/// The last value a form gives a field (a later field of the same name
/// replaces an earlier one), trimmed, or none when it is missing or blank.
pub open spec fn form_text(fs: Seq<(Seq<char>, Seq<char>)>, name: Seq<char>) -> Option<Seq<char>> {
    match env_value(fs, name) {
        Some(v) => if trim_seq(v).len() == 0 {
            None
        } else {
            Some(trim_seq(v))
        },
        None => None,
    }
}

/// The refusal of one numeric field that is not blank and no number within
/// `max`.
pub open spec fn number_field_error(v: Seq<char>, max: nat, label: Seq<char>) -> Option<Seq<char>> {
    if trim_seq(v).len() > 0 && parse_unsigned(trim_seq(v), max) is Err {
        Some(label + " 格式不正确"@)
    } else {
        None
    }
}

/// The first refusal of a numeric field (`max_tokens`, `max_iterations`) in
/// the order the fields come.
pub open spec fn form_number_error(fs: Seq<(Seq<char>, Seq<char>)>) -> Option<Seq<char>>
    decreases fs.len(),
{
    if fs.len() == 0 {
        None
    } else {
        match form_number_error(fs.drop_last()) {
            Some(e) => Some(e),
            None => {
                let (n, v) = fs.last();
                if n == "max_tokens"@ {
                    number_field_error(v, u32::MAX as nat, "max_tokens"@)
                } else if n == "max_iterations"@ {
                    number_field_error(v, usize::MAX as nat, "max_iterations"@)
                } else {
                    None
                }
            },
        }
    }
}

/// The number the last value of a numeric field gives, if it is not blank.
pub open spec fn form_number(fs: Seq<(Seq<char>, Seq<char>)>, name: Seq<char>, max: nat) -> Option<nat> {
    match form_text(fs, name) {
        Some(t) => match parse_unsigned(t, max) {
            Ok(n) => Some(n),
            Err(_) => None,
        },
        None => None,
    }
}

/// The history a form gives (`[]` when it gives none), as JSON.
pub open spec fn form_history(fs: Seq<(Seq<char>, Seq<char>)>) -> Seq<char> {
    match env_value(fs, "history"@) {
        Some(h) => h,
        None => "[]"@,
    }
}

/// Why a chat form is refused, checked in this order: a malformed number, a
/// blank message, a history that is not a JSON array, a zero token or
/// iteration limit, and MCP address lists that are no JSON arrays of strings.
pub open spec fn chat_form_error(fs: Seq<(Seq<char>, Seq<char>)>) -> Option<Seq<char>> {
    if form_number_error(fs) is Some {
        form_number_error(fs)
    } else if form_text(fs, "message"@) is None {
        Some("message 不能为空"@)
    } else if json_role_content(form_history(fs)) is None {
        Some("history 必须是合法 JSON"@)
    } else if json_role_content(form_history(fs)) == Some(
        None::<Seq<(Option<Seq<char>>, Option<Seq<char>>)>>,
    ) {
        Some("history 必须是数组"@)
    } else if form_number(fs, "max_tokens"@, u32::MAX as nat) == Some(0nat) {
        Some("max_tokens 必须大于 0"@)
    } else if form_number(fs, "max_iterations"@, usize::MAX as nat) == Some(0nat) {
        Some("max_iterations 必须大于 0"@)
    } else if mcp_urls_result(form_text(fs, "mcp_base_urls"@)) is Err {
        Some(mcp_urls_result(form_text(fs, "mcp_base_urls"@))->Err_0)
    } else if mcp_urls_result(form_text(fs, "mcp_disabled_urls"@)) is Err {
        Some(mcp_urls_result(form_text(fs, "mcp_disabled_urls"@))->Err_0)
    } else if mcp_urls_result(form_text(fs, "mcp_lazy_urls"@)) is Err {
        Some(mcp_urls_result(form_text(fs, "mcp_lazy_urls"@))->Err_0)
    } else {
        None
    }
}

/// A chat request read from the text fields of a form (the uploaded files
/// and the sampling numbers are read apart).
#[derive(Debug, Clone)]
pub struct ChatForm {
    pub message: String,
    pub history: Vec<HistoryEntry>,
    pub system: Option<String>,
    pub system_override: Option<String>,
    pub system_append: Option<String>,
    pub session_id: Option<String>,
    pub user_id: Option<String>,
    pub model_id: Option<String>,
    pub max_tokens: Option<u32>,
    pub max_iterations: Option<usize>,
    pub memory_maintenance_system: Option<String>,
    pub memory_maintenance_user_template: Option<String>,
    pub skill_learning_system: Option<String>,
    pub skill_learning_user_template: Option<String>,
    pub mcp_config_path: Option<String>,
    pub mcp_base_urls: Vec<String>,
    pub mcp_disabled_urls: Vec<String>,
    pub mcp_lazy_urls: Vec<String>,
}

pub open spec fn ov(o: Option<String>) -> Option<Seq<char>> {
    match o {
        Some(s) => Some(s@),
        None => None,
    }
}

pub open spec fn or_else(a: Option<Seq<char>>, b: Option<Seq<char>>) -> Option<Seq<char>> {
    match a {
        Some(x) => Some(x),
        None => b,
    }
}

/// What an accepted form gives: each text field trimmed and left out when
/// blank; the system prompt falling back to the override, the user to the
/// agent id; the limits as numbers; the history and MCP lists read as JSON.
pub open spec fn chat_form_of(f: ChatForm, fs: Seq<(Seq<char>, Seq<char>)>) -> bool {
    &&& Some(f.message@) == form_text(fs, "message"@)
    &&& json_role_content(form_history(fs)) matches Some(Some(items)) && f.history@.map_values(
        |h: HistoryEntry| h@,
    ) == history_entries(items)
    &&& ov(f.system) == or_else(form_text(fs, "system"@), form_text(fs, "system_override"@))
    &&& ov(f.system_override) == form_text(fs, "system_override"@)
    &&& ov(f.system_append) == form_text(fs, "system_append"@)
    &&& ov(f.session_id) == form_text(fs, "session_id"@)
    &&& ov(f.user_id) == or_else(form_text(fs, "user_id"@), form_text(fs, "agent_id"@))
    &&& ov(f.model_id) == form_text(fs, "model_id"@)
    &&& (match f.max_tokens {
        Some(n) => form_number(fs, "max_tokens"@, u32::MAX as nat) == Some(n as nat),
        None => form_number(fs, "max_tokens"@, u32::MAX as nat) is None,
    })
    &&& (match f.max_iterations {
        Some(n) => form_number(fs, "max_iterations"@, usize::MAX as nat) == Some(n as nat),
        None => form_number(fs, "max_iterations"@, usize::MAX as nat) is None,
    })
    &&& ov(f.memory_maintenance_system) == form_text(fs, "memory_maintenance_system"@)
    &&& ov(f.memory_maintenance_user_template) == form_text(fs, "memory_maintenance_user_template"@)
    &&& ov(f.skill_learning_system) == form_text(fs, "skill_learning_system"@)
    &&& ov(f.skill_learning_user_template) == form_text(fs, "skill_learning_user_template"@)
    &&& ov(f.mcp_config_path) == form_text(fs, "mcp_config_path"@)
    &&& mcp_urls_result(form_text(fs, "mcp_base_urls"@)) == Ok::<Seq<Seq<char>>, Seq<char>>(
        texts(f.mcp_base_urls@),
    )
    &&& mcp_urls_result(form_text(fs, "mcp_disabled_urls"@)) == Ok::<Seq<Seq<char>>, Seq<char>>(
        texts(f.mcp_disabled_urls@),
    )
    &&& mcp_urls_result(form_text(fs, "mcp_lazy_urls"@)) == Ok::<Seq<Seq<char>>, Seq<char>>(
        texts(f.mcp_lazy_urls@),
    )
}

fn form_text_exec(fields: &Vec<(String, String)>, name: &str) -> (r: Option<String>)
    ensures
        ov(r) == form_text(env_views(fields@), name@),
{
    match env_lookup(fields, name) {
        Some(v) => non_empty(v),
        None => None,
    }
}

fn form_number_exec(fields: &Vec<(String, String)>, name: &str, max: u64) -> (r: Option<u64>)
    ensures
        match r {
            Some(n) => form_number(env_views(fields@), name@, max as nat) == Some(n as nat)
                && n <= max,
            None => form_number(env_views(fields@), name@, max as nat) is None,
        },
{
    match form_text_exec(fields, name) {
        Some(t) => match parse_unsigned_exec(t.as_str(), max) {
            Ok(n) => {
                proof {
                    lemma_parse_bound(t@, max as nat);
                }
                Some(n)
            },
            Err(_) => None,
        },
        None => None,
    }
}

fn form_number_error_exec(fields: &Vec<(String, String)>) -> (r: Option<String>)
    ensures
        ov(r) == form_number_error(env_views(fields@)),
{
    let ghost fs = env_views(fields@);
    let mut i: usize = 0;
    assert(fs.take(0) =~= Seq::<(Seq<char>, Seq<char>)>::empty());
    while i < fields.len()
        invariant
            0 <= i <= fields.len(),
            fs == env_views(fields@),
            form_number_error(fs.take(i as int)) is None,
        decreases fields.len() - i,
    {
        assert(fs.take(i + 1).drop_last() =~= fs.take(i as int));
        assert(fs.take(i + 1).last() == (fields@[i as int].0@, fields@[i as int].1@));
        let name = fields[i].0.as_str();
        let value = fields[i].1.as_str();
        let checked = if str_eq(name, "max_tokens") {
            Some(parse_optional_number(value, "max_tokens", 0xffff_ffff))
        } else if str_eq(name, "max_iterations") {
            Some(parse_optional_number(value, "max_iterations", usize::MAX as u64))
        } else {
            None
        };
        match checked {
            Some(Err(ApiError::BadRequest(m))) => {
                assert(form_number_error(fs.take(i + 1)) == Some(m@));
                assert(fs.take(i + 1) == fs.take(i + 1));
                proof {
                    lemma_number_error_prefix(fs, i + 1);
                }
                return Some(m);
            },
            _ => {},
        }
        i += 1;
    }
    assert(fs.take(fields.len() as int) =~= fs);
    None
}

proof fn lemma_number_error_prefix(fs: Seq<(Seq<char>, Seq<char>)>, k: int)
    requires
        0 <= k <= fs.len(),
        form_number_error(fs.take(k)) is Some,
    ensures
        form_number_error(fs) == form_number_error(fs.take(k)),
    decreases fs.len() - k,
{
    if k < fs.len() {
        assert(fs.take(k + 1).drop_last() =~= fs.take(k));
        lemma_number_error_prefix(fs, k + 1);
    } else {
        assert(fs.take(k) =~= fs);
    }
}

/// Reads the text fields of a chat form, in the order they came, as
/// `chat_form_error` and `chat_form_of` state.
pub fn chat_form(fields: &Vec<(String, String)>) -> (r: Result<ChatForm, ApiError>)
    ensures
        match chat_form_error(env_views(fields@)) {
            Some(m) => (r matches Err(ApiError::BadRequest(t)) && t@ == m),
            None => (r matches Ok(f) && chat_form_of(f, env_views(fields@))),
        },
{
    let ghost fs = env_views(fields@);
    proof {
        reveal_strlit("max_tokens");
        reveal_strlit("max_iterations");
        assert("max_tokens"@.len() == 10 && "max_iterations"@.len() == 14);
    }
    if let Some(m) = form_number_error_exec(fields) {
        return Err(ApiError::bad_request(m));
    }
    let message = match form_text_exec(fields, "message") {
        Some(m) => m,
        None => {
            return Err(ApiError::bad_request(owned("message 不能为空")));
        },
    };
    let history_json = match env_lookup(fields, "history") {
        Some(h) => h,
        None => owned("[]"),
    };
    let history = parse_history(history_json.as_str())?;
    let max_tokens = form_number_exec(fields, "max_tokens", 0xffff_ffff);
    if max_tokens == Some(0u64) {
        return Err(ApiError::bad_request(owned("max_tokens 必须大于 0")));
    }
    let max_iterations = form_number_exec(fields, "max_iterations", usize::MAX as u64);
    if max_iterations == Some(0u64) {
        return Err(ApiError::bad_request(owned("max_iterations 必须大于 0")));
    }
    let base_raw = form_text_exec(fields, "mcp_base_urls");
    let mcp_base_urls = parse_mcp_base_urls(match &base_raw {
        Some(t) => Some(t.as_str()),
        None => None,
    })?;
    let disabled_raw = form_text_exec(fields, "mcp_disabled_urls");
    let mcp_disabled_urls = parse_mcp_base_urls(match &disabled_raw {
        Some(t) => Some(t.as_str()),
        None => None,
    })?;
    let lazy_raw = form_text_exec(fields, "mcp_lazy_urls");
    let mcp_lazy_urls = parse_mcp_base_urls(match &lazy_raw {
        Some(t) => Some(t.as_str()),
        None => None,
    })?;
    let system_override = form_text_exec(fields, "system_override");
    let system = match form_text_exec(fields, "system") {
        Some(s) => Some(s),
        None => match &system_override {
            Some(o) => Some(owned(o.as_str())),
            None => None,
        },
    };
    let user_id = match form_text_exec(fields, "user_id") {
        Some(u) => Some(u),
        None => form_text_exec(fields, "agent_id"),
    };
    Ok(ChatForm {
        message,
        history,
        system,
        system_override,
        system_append: form_text_exec(fields, "system_append"),
        session_id: form_text_exec(fields, "session_id"),
        user_id,
        model_id: form_text_exec(fields, "model_id"),
        max_tokens: match max_tokens {
            Some(n) => Some(n as u32),
            None => None,
        },
        max_iterations: match max_iterations {
            Some(n) => Some(n as usize),
            None => None,
        },
        memory_maintenance_system: form_text_exec(fields, "memory_maintenance_system"),
        memory_maintenance_user_template: form_text_exec(fields, "memory_maintenance_user_template"),
        skill_learning_system: form_text_exec(fields, "skill_learning_system"),
        skill_learning_user_template: form_text_exec(fields, "skill_learning_user_template"),
        mcp_config_path: form_text_exec(fields, "mcp_config_path"),
        mcp_base_urls,
        mcp_disabled_urls,
        mcp_lazy_urls,
    })
}

} // verus!
