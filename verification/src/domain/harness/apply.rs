use std::collections::HashMap;

use vstd::prelude::*;

use crate::digest::{sha1_hex, sha1_hex_of};
use crate::domain::harness::snapshot::{HarnessSnapshot, HarnessSnapshotSurface};
use crate::domain::harness::{
    FINAL_ANSWER_RECOVERY_PATH, MEMORY_MAINTENANCE_SYSTEM_PATH,
    MEMORY_MAINTENANCE_USER_TEMPLATE_PATH, MIDDLEWARE_MESSAGES_PATH, SKILL_LEARNING_SYSTEM_PATH,
    SKILL_LEARNING_USER_TEMPLATE_PATH, SUBAGENT_EXPLORE_PATH, SUBAGENT_GENERAL_PATH,
    SUBAGENT_SHARED_PATH, SYSTEM_BASE_PATH, TOOL_DESCRIPTIONS_PATH,
};
use crate::text::{
    byte_len, concat2, concat3, is_empty_text, lines, lines_of, owned, str_eq, trim, trim_seq,
    utf8_len,
};

verus! {

/// New content for one editable surface of the harness.
#[derive(Debug, Clone)]
pub struct HarnessSurfaceEdit {
    pub surface_key: String,
    pub content: String,
}

/// A surface as it was written: where, its hash and its length in bytes.
#[derive(Debug, Clone)]
pub struct AppliedHarnessSurface {
    pub key: String,
    pub path: String,
    pub sha1: String,
    pub bytes: usize,
}

/// What an edit would change on one surface.
#[derive(Debug, Clone)]
pub struct HarnessPreviewSurface {
    pub surface_key: String,
    pub path: String,
    pub changed: bool,
    pub before_sha1: String,
    pub after_sha1: String,
    pub before_bytes: usize,
    pub after_bytes: usize,
    pub byte_delta: i64,
    pub before_lines: usize,
    pub after_lines: usize,
    pub line_delta: i64,
    pub before_content: String,
    pub after_content: String,
}

/// What a set of edits would change, against the snapshot it was checked on.
#[derive(Debug, Clone)]
pub struct HarnessApplyPreview {
    pub snapshot_before: HarnessSnapshot,
    pub expected_snapshot_id: Option<String>,
    pub changed_surface_count: usize,
    pub surfaces: Vec<HarnessPreviewSurface>,
}

/// The outcome of writing a set of edits: the snapshots on both sides, the
/// preview that was written and the surfaces as they now stand.
#[derive(Debug, Clone)]
pub struct HarnessApplyExecution {
    pub snapshot_before: HarnessSnapshot,
    pub snapshot_after: HarnessSnapshot,
    pub preview: HarnessApplyPreview,
    pub updated_surfaces: Vec<AppliedHarnessSurface>,
}

/// The repository path behind each editable surface key.
pub open spec fn surface_path_of(key: Seq<char>) -> Option<Seq<char>> {
    if key == "system.base"@ {
        Some(SYSTEM_BASE_PATH@)
    } else if key == "subagents.shared"@ {
        Some(SUBAGENT_SHARED_PATH@)
    } else if key == "subagents.explore"@ {
        Some(SUBAGENT_EXPLORE_PATH@)
    } else if key == "subagents.general_purpose"@ {
        Some(SUBAGENT_GENERAL_PATH@)
    } else if key == "middleware.final_answer_recovery"@ {
        Some(FINAL_ANSWER_RECOVERY_PATH@)
    } else if key == "memory.maintenance_system"@ {
        Some(MEMORY_MAINTENANCE_SYSTEM_PATH@)
    } else if key == "memory.maintenance_user_template"@ {
        Some(MEMORY_MAINTENANCE_USER_TEMPLATE_PATH@)
    } else if key == "skills.learning_system"@ {
        Some(SKILL_LEARNING_SYSTEM_PATH@)
    } else if key == "skills.learning_user_template"@ {
        Some(SKILL_LEARNING_USER_TEMPLATE_PATH@)
    } else if key == "tools.descriptions"@ {
        Some(TOOL_DESCRIPTIONS_PATH@)
    } else if key == "middleware.messages"@ {
        Some(MIDDLEWARE_MESSAGES_PATH@)
    } else {
        None
    }
}

/// The path of an editable surface, or `None` for a key that names none.
pub fn supported_surface_path(key: &str) -> (r: Option<&'static str>)
    ensures
        match r {
            Some(p) => surface_path_of(key@) == Some(p@),
            None => surface_path_of(key@) is None,
        },
{
    if str_eq(key, "system.base") {
        Some(SYSTEM_BASE_PATH)
    } else if str_eq(key, "subagents.shared") {
        Some(SUBAGENT_SHARED_PATH)
    } else if str_eq(key, "subagents.explore") {
        Some(SUBAGENT_EXPLORE_PATH)
    } else if str_eq(key, "subagents.general_purpose") {
        Some(SUBAGENT_GENERAL_PATH)
    } else if str_eq(key, "middleware.final_answer_recovery") {
        Some(FINAL_ANSWER_RECOVERY_PATH)
    } else if str_eq(key, "memory.maintenance_system") {
        Some(MEMORY_MAINTENANCE_SYSTEM_PATH)
    } else if str_eq(key, "memory.maintenance_user_template") {
        Some(MEMORY_MAINTENANCE_USER_TEMPLATE_PATH)
    } else if str_eq(key, "skills.learning_system") {
        Some(SKILL_LEARNING_SYSTEM_PATH)
    } else if str_eq(key, "skills.learning_user_template") {
        Some(SKILL_LEARNING_USER_TEMPLATE_PATH)
    } else if str_eq(key, "tools.descriptions") {
        Some(TOOL_DESCRIPTIONS_PATH)
    } else if str_eq(key, "middleware.messages") {
        Some(MIDDLEWARE_MESSAGES_PATH)
    } else {
        None
    }
}

/// Why a set of surface edits was refused.
#[derive(Debug, Clone, Copy, PartialEq, Eq, Structural)]
pub enum HarnessEditFault {
    SnapshotMismatch,
    SurfaceKeyRequired,
    UnsupportedSurface,
    DuplicateSurface,
    EmptyContent,
    NoEdits,
    ContentBlank,
    InvalidToolDescriptions,
    NoToolDescriptions,
    InvalidJson,
    NotJsonObject,
    MissingSnapshotSurface,
}

/// A refused set of edits: the fault, the surface key it concerns (for a
/// snapshot mismatch, the expected snapshot id) and, for a snapshot mismatch,
/// the current snapshot id.
#[derive(Debug, Clone, PartialEq, Eq)]
pub struct HarnessEditError {
    pub fault: HarnessEditFault,
    pub subject: String,
    pub detail: String,
}

impl View for HarnessEditError {
    type V = (HarnessEditFault, Seq<char>, Seq<char>);

    open spec fn view(&self) -> (HarnessEditFault, Seq<char>, Seq<char>) {
        (self.fault, self.subject@, self.detail@)
    }
}

pub open spec fn fault_on(f: HarnessEditFault, key: Seq<char>) -> (
    HarnessEditFault,
    Seq<char>,
    Seq<char>,
) {
    (f, key, Seq::empty())
}

/// The text of a refusal.
pub open spec fn edit_error_text(e: (HarnessEditFault, Seq<char>, Seq<char>)) -> Seq<char> {
    let (f, s, d) = e;
    match f {
        HarnessEditFault::SnapshotMismatch => "snapshot mismatch: expected "@ + s + ", current "@
            + d,
        HarnessEditFault::SurfaceKeyRequired => "surface_key is required"@,
        HarnessEditFault::UnsupportedSurface => "unsupported surface_key: "@ + s,
        HarnessEditFault::DuplicateSurface => "duplicate surface_key: "@ + s,
        HarnessEditFault::EmptyContent => "content for "@ + s + " is empty"@,
        HarnessEditFault::NoEdits => "at least one supported surface edit is required"@,
        HarnessEditFault::ContentBlank => "content for "@ + s + " must not be empty"@,
        HarnessEditFault::InvalidToolDescriptions => s + " must be a JSON object<string,string>"@,
        HarnessEditFault::NoToolDescriptions => s + " must contain at least one tool description"@,
        HarnessEditFault::InvalidJson => s + " must be valid JSON"@,
        HarnessEditFault::NotJsonObject => s + " must be a JSON object"@,
        HarnessEditFault::MissingSnapshotSurface => "missing snapshot surface for "@ + s,
    }
}

impl HarnessEditError {
    /// The refusal as text.
    pub fn message(&self) -> (m: String)
        ensures
            m@ == edit_error_text(self@),
    {
        let s = self.subject.as_str();
        match self.fault {
            HarnessEditFault::SnapshotMismatch => {
                let head = concat3("snapshot mismatch: expected ", s, ", current ");
                concat2(head.as_str(), self.detail.as_str())
            },
            HarnessEditFault::SurfaceKeyRequired => owned("surface_key is required"),
            HarnessEditFault::UnsupportedSurface => concat2("unsupported surface_key: ", s),
            HarnessEditFault::DuplicateSurface => concat2("duplicate surface_key: ", s),
            HarnessEditFault::EmptyContent => concat3("content for ", s, " is empty"),
            HarnessEditFault::NoEdits => owned("at least one supported surface edit is required"),
            HarnessEditFault::ContentBlank => concat3("content for ", s, " must not be empty"),
            HarnessEditFault::InvalidToolDescriptions => concat2(
                s,
                " must be a JSON object<string,string>",
            ),
            HarnessEditFault::NoToolDescriptions => concat2(
                s,
                " must contain at least one tool description",
            ),
            HarnessEditFault::InvalidJson => concat2(s, " must be valid JSON"),
            HarnessEditFault::NotJsonObject => concat2(s, " must be a JSON object"),
            HarnessEditFault::MissingSnapshotSurface => concat2("missing snapshot surface for ", s),
        }
    }
}

fn edit_error(fault: HarnessEditFault, key: &str) -> (e: HarnessEditError)
    ensures
        e@ == fault_on(fault, key@),
{
    HarnessEditError { fault, subject: owned(key), detail: String::new() }
}

/// An edit as plain text: its surface key and content.
pub open spec fn edit_view(e: HarnessSurfaceEdit) -> (Seq<char>, Seq<char>) {
    (e.surface_key@, e.content@)
}

pub open spec fn edit_views(es: Seq<HarnessSurfaceEdit>) -> Seq<(Seq<char>, Seq<char>)> {
    es.map_values(|e: HarnessSurfaceEdit| edit_view(e))
}

pub open spec fn edit_keys(es: Seq<(Seq<char>, Seq<char>)>) -> Seq<Seq<char>> {
    es.map_values(|e: (Seq<char>, Seq<char>)| e.0)
}

/// Edits with key and content trimmed, in their order; refused at the first
/// edit whose key is blank, names no surface or repeats an earlier key, or
/// whose content is blank.
pub open spec fn normalized_edits(es: Seq<(Seq<char>, Seq<char>)>) -> Result<
    Seq<(Seq<char>, Seq<char>)>,
    (HarnessEditFault, Seq<char>, Seq<char>),
>
    decreases es.len(),
{
    if es.len() == 0 {
        Ok(Seq::empty())
    } else {
        match normalized_edits(es.drop_last()) {
            Err(e) => Err(e),
            Ok(done) => {
                let key = trim_seq(es.last().0);
                let content = trim_seq(es.last().1);
                if key.len() == 0 {
                    Err(fault_on(HarnessEditFault::SurfaceKeyRequired, Seq::empty()))
                } else if surface_path_of(key) is None {
                    Err(fault_on(HarnessEditFault::UnsupportedSurface, key))
                } else if edit_keys(done).contains(key) {
                    Err(fault_on(HarnessEditFault::DuplicateSurface, key))
                } else if content.len() == 0 {
                    Err(fault_on(HarnessEditFault::EmptyContent, key))
                } else {
                    Ok(done.push((key, content)))
                }
            },
        }
    }
}

fn has_edit_key(done: &Vec<HarnessSurfaceEdit>, key: &str) -> (r: bool)
    ensures
        r == edit_keys(edit_views(done@)).contains(key@),
{
    let mut i: usize = 0;
    while i < done.len()
        invariant
            0 <= i <= done.len(),
            forall|j: int| 0 <= j < i ==> done@[j].surface_key@ != key@,
        decreases done.len() - i,
    {
        if str_eq(done[i].surface_key.as_str(), key) {
            assert(edit_keys(edit_views(done@))[i as int] == key@);
            return true;
        }
        i += 1;
    }
    proof {
        if edit_keys(edit_views(done@)).contains(key@) {
            let j = choose|j: int|
                0 <= j < edit_keys(edit_views(done@)).len() && edit_keys(edit_views(done@))[j]
                    == key@;
            assert(done@[j].surface_key@ == key@);
        }
    }
    false
}

/// The edits trimmed and checked, as `normalized_edits` states.
pub fn normalize_edits(edits: &Vec<HarnessSurfaceEdit>) -> (r: Result<
    Vec<HarnessSurfaceEdit>,
    HarnessEditError,
>)
    ensures
        match r {
            Ok(v) => normalized_edits(edit_views(edits@)) == Ok::<
                Seq<(Seq<char>, Seq<char>)>,
                (HarnessEditFault, Seq<char>, Seq<char>),
            >(edit_views(v@)),
            Err(e) => normalized_edits(edit_views(edits@)) == Err::<
                Seq<(Seq<char>, Seq<char>)>,
                (HarnessEditFault, Seq<char>, Seq<char>),
            >(e@),
        },
{
    let mut out: Vec<HarnessSurfaceEdit> = Vec::new();
    let mut i: usize = 0;
    assert(edit_views(edits@).take(0) =~= Seq::<(Seq<char>, Seq<char>)>::empty());
    assert(edit_views(out@) =~= Seq::<(Seq<char>, Seq<char>)>::empty());
    while i < edits.len()
        invariant
            0 <= i <= edits.len(),
            normalized_edits(edit_views(edits@).take(i as int)) == Ok::<
                Seq<(Seq<char>, Seq<char>)>,
                (HarnessEditFault, Seq<char>, Seq<char>),
            >(edit_views(out@)),
        decreases edits.len() - i,
    {
        let ghost pre = edit_views(edits@).take(i + 1);
        assert(pre.drop_last() =~= edit_views(edits@).take(i as int));
        assert(pre.last() == edit_view(edits@[i as int]));
        let key = trim(edits[i].surface_key.as_str());
        if is_empty_text(key.as_str()) {
            proof {
                assert(edit_views(edits@).take(edits.len() as int) =~= edit_views(edits@));
                lemma_normalized_prefix_error(edit_views(edits@), i + 1);
            }
            return Err(
                HarnessEditError {
                    fault: HarnessEditFault::SurfaceKeyRequired,
                    subject: String::new(),
                    detail: String::new(),
                },
            );
        }
        if supported_surface_path(key.as_str()).is_none() {
            proof {
                lemma_normalized_prefix_error(edit_views(edits@), i + 1);
            }
            return Err(edit_error(HarnessEditFault::UnsupportedSurface, key.as_str()));
        }
        if has_edit_key(&out, key.as_str()) {
            proof {
                lemma_normalized_prefix_error(edit_views(edits@), i + 1);
            }
            return Err(edit_error(HarnessEditFault::DuplicateSurface, key.as_str()));
        }
        let content = trim(edits[i].content.as_str());
        if is_empty_text(content.as_str()) {
            proof {
                lemma_normalized_prefix_error(edit_views(edits@), i + 1);
            }
            return Err(edit_error(HarnessEditFault::EmptyContent, key.as_str()));
        }
        let ghost before = edit_views(out@);
        out.push(HarnessSurfaceEdit { surface_key: key, content });
        assert(edit_views(out@) =~= before.push((trim_seq(pre.last().0), trim_seq(pre.last().1))));
        i += 1;
    }
    assert(edit_views(edits@).take(edits.len() as int) =~= edit_views(edits@));
    Ok(out)
}

/// A refusal on a prefix of the edits is the refusal of all of them.
proof fn lemma_normalized_prefix_error(es: Seq<(Seq<char>, Seq<char>)>, k: int)
    requires
        0 <= k <= es.len(),
        normalized_edits(es.take(k)) is Err,
    ensures
        normalized_edits(es) == normalized_edits(es.take(k)),
    decreases es.len() - k,
{
    if k < es.len() {
        assert(es.take(k + 1).drop_last() =~= es.take(k));
        lemma_normalized_prefix_error(es, k + 1);
    } else {
        assert(es.take(k) =~= es);
    }
}

/// How many entries a text holds when it parses as a JSON object whose values
/// are all strings (`serde_json::from_str::<HashMap<String, String>>`); `None`
/// when it does not parse as one.
pub uninterp spec fn json_string_map_size(content: Seq<char>) -> Option<usize>;

/// Whether a text that parses as JSON is an object (`serde_json::from_str` into
/// a `serde_json::Value`, then `is_object`); `None` when it is not JSON.
pub uninterp spec fn json_value_is_object(content: Seq<char>) -> Option<bool>;

/// Parses `content` with `serde_json::from_str` into a map of strings and gives
/// its number of entries, or `None` when it does not parse. The contract only
/// names the result.
#[verifier::external_body]
fn parse_string_map_size(content: &str) -> (r: Option<usize>)
    ensures
        r == json_string_map_size(content@),
{
    match serde_json::from_str::<HashMap<String, String>>(content) {
        Ok(map) => Some(map.len()),
        Err(_) => None,
    }
}

/// Parses `content` with `serde_json::from_str` into a `serde_json::Value` and
/// tells whether it is an object, or `None` when it is not JSON. The contract
/// only names the result.
#[verifier::external_body]
pub(crate) fn parse_json_is_object(content: &str) -> (r: Option<bool>)
    ensures
        r == json_value_is_object(content@),
{
    match serde_json::from_str::<serde_json::Value>(content) {
        Ok(value) => Some(value.is_object()),
        Err(_) => None,
    }
}

/// Why the content of a surface is refused, if it is: blank content, tool
/// descriptions that are not a non-empty JSON object of strings, or
/// middleware messages that are not a JSON object.
pub open spec fn content_fault(key: Seq<char>, content: Seq<char>) -> Option<HarnessEditFault> {
    if trim_seq(content).len() == 0 {
        Some(HarnessEditFault::ContentBlank)
    } else if key == "tools.descriptions"@ {
        match json_string_map_size(content) {
            None => Some(HarnessEditFault::InvalidToolDescriptions),
            Some(n) => if n == 0 {
                Some(HarnessEditFault::NoToolDescriptions)
            } else {
                None
            },
        }
    } else if key == "middleware.messages"@ {
        match json_value_is_object(content) {
            None => Some(HarnessEditFault::InvalidJson),
            Some(b) => if b {
                None
            } else {
                Some(HarnessEditFault::NotJsonObject)
            },
        }
    } else {
        None
    }
}

/// Checks the content of one surface, as `content_fault` states.
pub fn validate_surface_content(surface_key: &str, content: &str) -> (r: Result<
    (),
    HarnessEditError,
>)
    ensures
        match content_fault(surface_key@, content@) {
            None => r is Ok,
            Some(f) => r matches Err(e) && e@ == fault_on(f, surface_key@),
        },
{
    let t = trim(content);
    if is_empty_text(t.as_str()) {
        return Err(edit_error(HarnessEditFault::ContentBlank, surface_key));
    }
    if str_eq(surface_key, "tools.descriptions") {
        match parse_string_map_size(content) {
            None => Err(edit_error(HarnessEditFault::InvalidToolDescriptions, surface_key)),
            Some(n) => if n == 0 {
                Err(edit_error(HarnessEditFault::NoToolDescriptions, surface_key))
            } else {
                Ok(())
            },
        }
    } else if str_eq(surface_key, "middleware.messages") {
        match parse_json_is_object(content) {
            None => Err(edit_error(HarnessEditFault::InvalidJson, surface_key)),
            Some(b) => if b {
                Ok(())
            } else {
                Err(edit_error(HarnessEditFault::NotJsonObject, surface_key))
            },
        }
    } else {
        Ok(())
    }
}

/// The number of lines of a text (`str::lines`), none for empty text.
pub fn count_lines(content: &str) -> (n: usize)
    ensures
        n == lines_of(content@).len(),
{
    let v = lines(content);
    proof {
        assert(v@.map_values(|l: String| l@).len() == v@.len());
    }
    v.len()
}

/// The index of the last snapshot surface with the given key.
pub open spec fn surface_index(surfaces: Seq<HarnessSnapshotSurface>, key: Seq<char>) -> Option<
    int,
>
    decreases surfaces.len(),
{
    if surfaces.len() == 0 {
        None
    } else if surfaces.last().key@ == key {
        Some(surfaces.len() - 1)
    } else {
        surface_index(surfaces.drop_last(), key)
    }
}

proof fn lemma_surface_index_range(surfaces: Seq<HarnessSnapshotSurface>, key: Seq<char>)
    ensures
        surface_index(surfaces, key) matches Some(j) ==> 0 <= j < surfaces.len()
            && surfaces[j].key@ == key,
    decreases surfaces.len(),
{
    if surfaces.len() > 0 && surfaces.last().key@ != key {
        lemma_surface_index_range(surfaces.drop_last(), key);
    }
}

fn find_surface(surfaces: &Vec<HarnessSnapshotSurface>, key: &str) -> (r: Option<usize>)
    ensures
        match r {
            Some(j) => surface_index(surfaces@, key@) == Some(j as int),
            None => surface_index(surfaces@, key@) is None,
        },
{
    let mut found: Option<usize> = None;
    let mut i: usize = 0;
    assert(surfaces@.take(0) =~= Seq::<HarnessSnapshotSurface>::empty());
    while i < surfaces.len()
        invariant
            0 <= i <= surfaces.len(),
            match found {
                Some(j) => surface_index(surfaces@.take(i as int), key@) == Some(j as int),
                None => surface_index(surfaces@.take(i as int), key@) is None,
            },
        decreases surfaces.len() - i,
    {
        assert(surfaces@.take(i + 1).drop_last() =~= surfaces@.take(i as int));
        if str_eq(surfaces[i].key.as_str(), key) {
            found = Some(i);
        }
        i += 1;
    }
    assert(surfaces@.take(surfaces.len() as int) =~= surfaces@);
    found
}

/// Why one normalized edit cannot be previewed against the snapshot, if it
/// cannot: its content is refused, or the snapshot has no such surface.
pub open spec fn edit_fault(surfaces: Seq<HarnessSnapshotSurface>, e: (Seq<char>, Seq<char>)) -> Option<
    (HarnessEditFault, Seq<char>, Seq<char>),
> {
    match content_fault(e.0, e.1) {
        Some(f) => Some(fault_on(f, e.0)),
        None => if surface_index(surfaces, e.0) is None {
            Some(fault_on(HarnessEditFault::MissingSnapshotSurface, e.0))
        } else {
            None
        },
    }
}

/// The fault of the first edit that has one.
pub open spec fn first_edit_fault(
    surfaces: Seq<HarnessSnapshotSurface>,
    es: Seq<(Seq<char>, Seq<char>)>,
) -> Option<(HarnessEditFault, Seq<char>, Seq<char>)>
    decreases es.len(),
{
    if es.len() == 0 {
        None
    } else {
        match first_edit_fault(surfaces, es.drop_last()) {
            Some(f) => Some(f),
            None => edit_fault(surfaces, es.last()),
        }
    }
}

proof fn lemma_first_fault_prefix(
    surfaces: Seq<HarnessSnapshotSurface>,
    es: Seq<(Seq<char>, Seq<char>)>,
    k: int,
)
    requires
        0 <= k <= es.len(),
        first_edit_fault(surfaces, es.take(k)) is Some,
    ensures
        first_edit_fault(surfaces, es) == first_edit_fault(surfaces, es.take(k)),
    decreases es.len() - k,
{
    if k < es.len() {
        assert(es.take(k + 1).drop_last() =~= es.take(k));
        lemma_first_fault_prefix(surfaces, es, k + 1);
    } else {
        assert(es.take(k) =~= es);
    }
}

/// `n` as an `i64`, held at `i64::MAX` above it.
pub open spec fn clamp_i64(n: nat) -> int {
    if n <= i64::MAX {
        n as int
    } else {
        i64::MAX as int
    }
}

fn usize_to_i64_clamped(n: usize) -> (r: i64)
    ensures
        r as int == clamp_i64(n as nat),
{
    let m = n as u64;
    if m <= 0x7fff_ffff_ffff_ffffu64 {
        m as i64
    } else {
        0x7fff_ffff_ffff_ffffi64
    }
}

/// The preview of one edit on the surface it replaces.
pub open spec fn previews_edit(
    p: HarnessPreviewSurface,
    e: (Seq<char>, Seq<char>),
    before: HarnessSnapshotSurface,
) -> bool {
    &&& p.surface_key@ == e.0
    &&& surface_path_of(e.0) == Some(p.path@)
    &&& p.changed == (before.content@ != e.1)
    &&& p.before_sha1@ == before.sha1@
    &&& p.after_sha1@ == sha1_hex_of(e.1)
    &&& p.before_bytes == before.bytes
    &&& p.after_bytes as nat == utf8_len(e.1)
    &&& p.byte_delta == clamp_i64(utf8_len(e.1)) - clamp_i64(before.bytes as nat)
    &&& p.before_lines == lines_of(before.content@).len()
    &&& p.after_lines == lines_of(e.1).len()
    &&& p.line_delta == clamp_i64(lines_of(e.1).len()) - clamp_i64(
        lines_of(before.content@).len(),
    )
    &&& p.before_content@ == before.content@
    &&& p.after_content@ == e.1
}

/// How many previewed surfaces change.
pub open spec fn changed_count(ps: Seq<HarnessPreviewSurface>) -> nat
    decreases ps.len(),
{
    if ps.len() == 0 {
        0
    } else {
        changed_count(ps.drop_last()) + if ps.last().changed {
            1nat
        } else {
            0nat
        }
    }
}

/// The preview of an edit on the last snapshot surface with its key.
pub open spec fn previews_on(
    p: HarnessPreviewSurface,
    e: (Seq<char>, Seq<char>),
    surfaces: Seq<HarnessSnapshotSurface>,
) -> bool {
    surface_index(surfaces, e.0) matches Some(j) && previews_edit(p, e, surfaces[j])
}

/// Each previewed surface is the preview of the edit at the same place.
pub open spec fn previews_all(
    ps: Seq<HarnessPreviewSurface>,
    es: Seq<(Seq<char>, Seq<char>)>,
    surfaces: Seq<HarnessSnapshotSurface>,
) -> bool {
    &&& ps.len() == es.len()
    &&& forall|i: int|
        0 <= i < es.len() ==> previews_on(#[trigger] ps[i], es[i], surfaces)
}

fn preview_surface(
    key: &str,
    content: &str,
    path: &str,
    before: &HarnessSnapshotSurface,
) -> (p: HarnessPreviewSurface)
    requires
        surface_path_of(key@) == Some(path@),
    ensures
        previews_edit(p, (key@, content@), *before),
{
    let before_lines = count_lines(before.content.as_str());
    let after_lines = count_lines(content);
    let after_bytes = byte_len(content);
    let before_bytes = before.bytes;
    let byte_delta = usize_to_i64_clamped(after_bytes) - usize_to_i64_clamped(before_bytes);
    let line_delta = usize_to_i64_clamped(after_lines) - usize_to_i64_clamped(before_lines);
    HarnessPreviewSurface {
        surface_key: owned(key),
        path: owned(path),
        changed: !str_eq(before.content.as_str(), content),
        before_sha1: owned(before.sha1.as_str()),
        after_sha1: sha1_hex(content),
        before_bytes,
        after_bytes,
        byte_delta,
        before_lines,
        after_lines,
        line_delta,
        before_content: owned(before.content.as_str()),
        after_content: owned(content),
    }
}

/// The preview of `edits` against `snapshot_before`, or why it is refused.
///
/// Refused, in this order: when an expected snapshot id is given and differs
/// from the snapshot's; when the edits do not normalize; when none is left;
/// at the first edit whose content is refused or whose surface the snapshot
/// lacks. Otherwise each edit, in order, is previewed against the last
/// snapshot surface with its key.
pub fn preview_harness_edits(
    snapshot_before: HarnessSnapshot,
    edits: &Vec<HarnessSurfaceEdit>,
    expected_snapshot_id: Option<&str>,
) -> (r: Result<HarnessApplyPreview, HarnessEditError>)
    ensures
        ({
            let id = snapshot_before.snapshot_id@;
            let surfaces = snapshot_before.surfaces@;
            if expected_snapshot_id is Some && expected_snapshot_id.unwrap()@ != id {
                r matches Err(e) && e@ == (
                    HarnessEditFault::SnapshotMismatch,
                    expected_snapshot_id.unwrap()@,
                    id,
                )
            } else {
                match normalized_edits(edit_views(edits@)) {
                    Err(f) => r matches Err(e) && e@ == f,
                    Ok(es) => if es.len() == 0 {
                        r matches Err(e) && e@ == fault_on(HarnessEditFault::NoEdits, Seq::empty())
                    } else {
                        match first_edit_fault(surfaces, es) {
                            Some(f) => r matches Err(e) && e@ == f,
                            None => r matches Ok(p) && p.snapshot_before == snapshot_before
                                && (match expected_snapshot_id {
                                Some(x) => p.expected_snapshot_id matches Some(y) && y@ == x@,
                                None => p.expected_snapshot_id is None,
                            }) && previews_all(p.surfaces@, es, surfaces)
                                && p.changed_surface_count == changed_count(p.surfaces@),
                        }
                    },
                }
            }
        }),
{
    if let Some(expected) = expected_snapshot_id {
        if !str_eq(snapshot_before.snapshot_id.as_str(), expected) {
            return Err(
                HarnessEditError {
                    fault: HarnessEditFault::SnapshotMismatch,
                    subject: owned(expected),
                    detail: owned(snapshot_before.snapshot_id.as_str()),
                },
            );
        }
    }
    let edits_n = match normalize_edits(edits) {
        Ok(v) => v,
        Err(e) => {
            return Err(e);
        },
    };
    if edits_n.len() == 0 {
        return Err(
            HarnessEditError {
                fault: HarnessEditFault::NoEdits,
                subject: String::new(),
                detail: String::new(),
            },
        );
    }
    let ghost es = edit_views(edits_n@);
    proof {
        lemma_normalized_paths(edit_views(edits@));
    }
    let mut surfaces: Vec<HarnessPreviewSurface> = Vec::new();
    let mut changed: usize = 0;
    let mut i: usize = 0;
    assert(es.take(0) =~= Seq::<(Seq<char>, Seq<char>)>::empty());
    while i < edits_n.len()
        invariant
            0 <= i <= edits_n.len(),
            es == edit_views(edits_n@),
            es.len() > 0,
            normalized_edits(edit_views(edits@)) == Ok::<
                Seq<(Seq<char>, Seq<char>)>,
                (HarnessEditFault, Seq<char>, Seq<char>),
            >(es),
            !(expected_snapshot_id is Some && expected_snapshot_id.unwrap()@
                != snapshot_before.snapshot_id@),
            forall|k: int| 0 <= k < es.len() ==> surface_path_of(#[trigger] es[k].0) is Some,
            first_edit_fault(snapshot_before.surfaces@, es.take(i as int)) is None,
            previews_all(surfaces@, es.take(i as int), snapshot_before.surfaces@),
            changed as nat == changed_count(surfaces@),
            changed <= i,
        decreases edits_n.len() - i,
    {
        let ghost pre = es.take(i + 1);
        assert(pre.drop_last() =~= es.take(i as int));
        assert(pre.last() == es[i as int]);
        let key = edits_n[i].surface_key.as_str();
        let content = edits_n[i].content.as_str();
        assert(es[i as int] == (key@, content@));
        let checked = validate_surface_content(key, content);
        if let Err(e) = checked {
            proof {
                assert(first_edit_fault(snapshot_before.surfaces@, pre) == Some(e@));
                lemma_first_fault_prefix(snapshot_before.surfaces@, es, i + 1);
            }
            return Err(e);
        }
        assert(content_fault(key@, content@) is None);
        let found = find_surface(&snapshot_before.surfaces, key);
        let j = match found {
            None => {
                let e = edit_error(HarnessEditFault::MissingSnapshotSurface, key);
                proof {
                    assert(first_edit_fault(snapshot_before.surfaces@, pre) == Some(e@));
                    lemma_first_fault_prefix(snapshot_before.surfaces@, es, i + 1);
                }
                return Err(e);
            },
            Some(j) => j,
        };
        proof {
            lemma_surface_index_range(snapshot_before.surfaces@, key@);
        }
        assert(first_edit_fault(snapshot_before.surfaces@, pre) is None);
        let path = match supported_surface_path(key) {
            Some(p) => p,
            None => {
                assert(surface_path_of(es[i as int].0) is Some);
                return Err(edit_error(HarnessEditFault::UnsupportedSurface, key));
            },
        };
        let p = preview_surface(key, content, path, &snapshot_before.surfaces[j]);
        assert(previews_edit(p, pre[i as int], snapshot_before.surfaces@[j as int]));
        if p.changed {
            changed = changed + 1;
        }
        let ghost before = surfaces@;
        surfaces.push(p);
        assert(surfaces@.drop_last() =~= before);
        assert forall|k: int| 0 <= k < pre.len() implies previews_on(
            #[trigger] surfaces@[k],
            pre[k],
            snapshot_before.surfaces@,
        ) by {
            if k < i {
                assert(pre[k] == es.take(i as int)[k]);
                assert(surfaces@[k] == before[k]);
            } else {
                assert(surfaces@[k] == p);
            }
        }
        assert(previews_all(surfaces@, pre, snapshot_before.surfaces@));
        i += 1;
    }
    assert(es.take(edits_n.len() as int) =~= es);
    Ok(
        HarnessApplyPreview {
            snapshot_before,
            expected_snapshot_id: match expected_snapshot_id {
                Some(x) => Some(owned(x)),
                None => None,
            },
            changed_surface_count: changed,
            surfaces,
        },
    )
}

/// Every normalized edit names a surface.
proof fn lemma_normalized_paths(es: Seq<(Seq<char>, Seq<char>)>)
    requires
        normalized_edits(es) is Ok,
    ensures
        forall|k: int|
            0 <= k < normalized_edits(es)->Ok_0.len() ==> surface_path_of(
                #[trigger] normalized_edits(es)->Ok_0[k].0,
            ) is Some,
    decreases es.len(),
{
    if es.len() > 0 {
        lemma_normalized_paths(es.drop_last());
        let done = normalized_edits(es.drop_last())->Ok_0;
        let n = normalized_edits(es)->Ok_0;
        assert(n == done.push((trim_seq(es.last().0), trim_seq(es.last().1))));
        assert forall|k: int| 0 <= k < n.len() implies surface_path_of(#[trigger] n[k].0) is Some by {
            if k < done.len() {
                assert(n[k] == done[k]);
            }
        }
    }
}

/// The surfaces as written by an applied preview: key, path, new hash and
/// new length of each.
pub fn applied_surfaces(preview: &HarnessApplyPreview) -> (v: Vec<AppliedHarnessSurface>)
    ensures
        v@.len() == preview.surfaces@.len(),
        forall|i: int|
            0 <= i < v@.len() ==> {
                let a = #[trigger] v@[i];
                let p = preview.surfaces@[i];
                a.key@ == p.surface_key@ && a.path@ == p.path@ && a.sha1@ == p.after_sha1@
                    && a.bytes == p.after_bytes
            },
{
    let mut v: Vec<AppliedHarnessSurface> = Vec::new();
    let mut i: usize = 0;
    while i < preview.surfaces.len()
        invariant
            0 <= i <= preview.surfaces.len(),
            v@.len() == i,
            forall|k: int|
                0 <= k < i ==> {
                    let a = #[trigger] v@[k];
                    let p = preview.surfaces@[k];
                    a.key@ == p.surface_key@ && a.path@ == p.path@ && a.sha1@ == p.after_sha1@
                        && a.bytes == p.after_bytes
                },
        decreases preview.surfaces.len() - i,
    {
        let p = &preview.surfaces[i];
        v.push(
            AppliedHarnessSurface {
                key: owned(p.surface_key.as_str()),
                path: owned(p.path.as_str()),
                sha1: owned(p.after_sha1.as_str()),
                bytes: p.after_bytes,
            },
        );
        i += 1;
    }
    v
}

} // verus!
