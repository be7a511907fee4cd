use vstd::prelude::*;

use crate::config::model::{MemoryPromptConfig, SkillPromptConfig};
use crate::digest::{sha1_hex, sha1_hex_of};
use crate::domain::clock::unix_time_millis;
use crate::domain::harness::{
    resolve_repo_prompt_source, HarnessAssets, PromptSource, PromptSourceKind,
    MEMORY_MAINTENANCE_SYSTEM_PATH, MEMORY_MAINTENANCE_USER_TEMPLATE_PATH,
    SKILL_LEARNING_SYSTEM_PATH, SKILL_LEARNING_USER_TEMPLATE_PATH,
};
use crate::json::{
    entry_views, json_pretty_object, json_quoted, pretty_object, push_json_number,
    push_json_string,
};
use crate::order::{
    ascending_entries, keys_ascending, lemma_ascending_entries, lemma_text_lt_transitive,
    pair_views, sorted_entries, text_lt,
};
use crate::text::{byte_len, concat2, decimal, owned, push_str, utf8_len};

verus! {

/// The harness as it stands: every editable surface with its hash.
#[derive(Debug, Clone)]
pub struct HarnessSnapshot {
    pub snapshot_id: String,
    pub generated_at_ms: u128,
    pub memory_only_self_evolution: bool,
    pub surfaces: Vec<HarnessSnapshotSurface>,
}

/// One editable surface of the harness.
#[derive(Debug, Clone)]
pub struct HarnessSnapshotSurface {
    pub key: String,
    pub source: PromptSource,
    pub sha1: String,
    pub bytes: usize,
    pub content: String,
}

/// The snapshot entry of a surface: its key, source, content, the content's
/// SHA-1 and its length in bytes.
pub fn surface(key: &str, content: &str, source: PromptSource) -> (s: HarnessSnapshotSurface)
    ensures
        s.key@ == key@,
        s.source == source,
        s.sha1@ == sha1_hex_of(content@),
        s.bytes as nat == utf8_len(content@),
        s.content@ == content@,
{
    let n = byte_len(content);
    HarnessSnapshotSurface {
        key: owned(key),
        source,
        sha1: sha1_hex(content),
        bytes: n,
        content: owned(content),
    }
}

/// The name of a source kind in a manifest.
pub open spec fn kind_name(k: PromptSourceKind) -> Seq<char> {
    match k {
        PromptSourceKind::Builtin => "builtin"@,
        PromptSourceKind::File => "file"@,
        PromptSourceKind::Request => "request"@,
        PromptSourceKind::Unset => "none"@,
    }
}

fn kind_label(k: PromptSourceKind) -> (s: &'static str)
    ensures
        s@ == kind_name(k),
{
    match k {
        PromptSourceKind::Builtin => "builtin",
        PromptSourceKind::File => "file",
        PromptSourceKind::Request => "request",
        PromptSourceKind::Unset => "none",
    }
}

/// A source as JSON: its kind, and its path when it has one.
pub open spec fn source_json(s: PromptSource) -> Seq<char> {
    "{\"kind\":"@ + json_quoted(kind_name(s.kind)) + match s.path {
        Some(p) => ",\"path\":"@ + json_quoted(p@),
        None => Seq::empty(),
    } + "}"@
}

/// A surface in the snapshot manifest: its length, key, hash and source.
pub open spec fn surface_json(s: HarnessSnapshotSurface) -> Seq<char> {
    "{\"bytes\":"@ + decimal(s.bytes as nat) + ",\"key\":"@ + json_quoted(s.key@) + ",\"sha1\":"@
        + json_quoted(s.sha1@) + ",\"source\":"@ + source_json(s.source) + "}"@
}

pub open spec fn surfaces_json(ss: Seq<HarnessSnapshotSurface>) -> Seq<char>
    decreases ss.len(),
{
    if ss.len() == 0 {
        Seq::empty()
    } else {
        let head = if ss.len() == 1 {
            Seq::empty()
        } else {
            surfaces_json(ss.drop_last()) + ","@
        };
        head + surface_json(ss.last())
    }
}

/// The compact JSON manifest that identifies a snapshot: the memory-only
/// policy and, per surface, its length, key, hash and source.
pub open spec fn snapshot_manifest(ss: Seq<HarnessSnapshotSurface>) -> Seq<char> {
    "{\"memory_only_self_evolution\":true,\"surfaces\":["@ + surfaces_json(ss) + "]}"@
}

/// A snapshot's id: `hsnap-` and the SHA-1 of its manifest.
pub open spec fn snapshot_id_of(ss: Seq<HarnessSnapshotSurface>) -> Seq<char> {
    "hsnap-"@ + sha1_hex_of(snapshot_manifest(ss))
}

fn push_source_json(out: &mut String, s: &PromptSource)
    ensures
        final(out)@ == old(out)@ + source_json(*s),
{
    let ghost start = out@;
    push_str(out, "{\"kind\":");
    push_json_string(out, kind_label(s.kind));
    match &s.path {
        Some(p) => {
            push_str(out, ",\"path\":");
            push_json_string(out, p.as_str());
        },
        None => {},
    }
    push_str(out, "}");
    assert(out@ =~= start + source_json(*s));
}

fn push_surface_json(out: &mut String, s: &HarnessSnapshotSurface)
    ensures
        final(out)@ == old(out)@ + surface_json(*s),
{
    let ghost start = out@;
    push_str(out, "{\"bytes\":");
    push_json_number(out, s.bytes);
    push_str(out, ",\"key\":");
    push_json_string(out, s.key.as_str());
    push_str(out, ",\"sha1\":");
    push_json_string(out, s.sha1.as_str());
    push_str(out, ",\"source\":");
    push_source_json(out, &s.source);
    push_str(out, "}");
    assert(out@ =~= start + surface_json(*s));
}

/// The manifest of a list of surfaces.
pub fn build_snapshot_manifest(surfaces: &Vec<HarnessSnapshotSurface>) -> (m: String)
    ensures
        m@ == snapshot_manifest(surfaces@),
{
    let mut out = owned("{\"memory_only_self_evolution\":true,\"surfaces\":[");
    let mut i: usize = 0;
    assert(surfaces@.take(0) =~= Seq::<HarnessSnapshotSurface>::empty());
    while i < surfaces.len()
        invariant
            0 <= i <= surfaces.len(),
            out@ == "{\"memory_only_self_evolution\":true,\"surfaces\":["@ + surfaces_json(
                surfaces@.take(i as int),
            ),
        decreases surfaces.len() - i,
    {
        let ghost pre = surfaces@.take(i + 1);
        assert(pre.drop_last() =~= surfaces@.take(i as int));
        if i > 0 {
            push_str(&mut out, ",");
        }
        push_surface_json(&mut out, &surfaces[i]);
        assert(out@ =~= "{\"memory_only_self_evolution\":true,\"surfaces\":["@ + surfaces_json(
            pre,
        ));
        i += 1;
    }
    assert(surfaces@.take(surfaces.len() as int) =~= surfaces@);
    push_str(&mut out, "]}");
    out
}

/// The id of a snapshot with these surfaces.
pub fn build_snapshot_id(surfaces: &Vec<HarnessSnapshotSurface>) -> (id: String)
    ensures
        id@ == snapshot_id_of(surfaces@),
{
    let manifest = build_snapshot_manifest(surfaces);
    let digest = sha1_hex(manifest.as_str());
    concat2("hsnap-", digest.as_str())
}

/// The middleware messages as the entries of their JSON document, keys in
/// order.
pub open spec fn middleware_entries(h: HarnessAssets) -> Seq<(Seq<char>, Seq<char>)> {
    let m = h.middleware_messages;
    seq![
        ("background_results_ack"@, m.background_results_ack@),
        ("inbox_ack"@, m.inbox_ack@),
        ("steering_ack"@, m.steering_ack@),
        ("todo_reminder_ack"@, m.todo_reminder_ack@),
        ("todo_reminder_user"@, m.todo_reminder_user@),
    ]
}

/// The middleware messages are listed with their keys ascending.
proof fn lemma_middleware_keys_ascending(h: HarnessAssets)
    ensures
        keys_ascending(middleware_entries(h)),
{
    reveal_strlit("background_results_ack");
    reveal_strlit("inbox_ack");
    reveal_strlit("steering_ack");
    reveal_strlit("todo_reminder_ack");
    reveal_strlit("todo_reminder_user");
    let es = middleware_entries(h);
    assert(text_lt(es[0].0, es[1].0));
    assert(text_lt(es[1].0, es[2].0));
    assert(text_lt(es[2].0, es[3].0));
    assert(text_lt(es[3].0, es[4].0)) by {
        reveal_with_fuel(text_lt, 16);
    }
    lemma_text_lt_transitive(es[0].0, es[1].0, es[2].0);
    lemma_text_lt_transitive(es[0].0, es[2].0, es[3].0);
    lemma_text_lt_transitive(es[0].0, es[3].0, es[4].0);
    lemma_text_lt_transitive(es[1].0, es[2].0, es[3].0);
    lemma_text_lt_transitive(es[1].0, es[3].0, es[4].0);
    lemma_text_lt_transitive(es[2].0, es[3].0, es[4].0);
}

/// A surface entry of the snapshot.
pub open spec fn is_surface(
    s: HarnessSnapshotSurface,
    key: Seq<char>,
    content: Seq<char>,
    source: PromptSource,
) -> bool {
    &&& s.key@ == key
    &&& s.content@ == content
    &&& s.source == source
    &&& s.sha1@ == sha1_hex_of(content)
    &&& s.bytes as nat == utf8_len(content)
}

/// The source of a repository prompt file that may or may not exist.
pub open spec fn repo_source(s: PromptSource, path: Seq<char>, exists: bool) -> bool {
    if exists {
        &&& s.kind == PromptSourceKind::File
        &&& s.path matches Some(p) && p@ == path
    } else {
        s.kind == PromptSourceKind::Builtin && s.path is None
    }
}

/// The snapshot of the effective harness: the five prompts of the assets, the
/// four configured memory and skill prompts (each from its repository file
/// when that exists), the tool descriptions as an indented JSON object in key
/// order and the middleware messages as one; the id hashes the manifest.
pub fn build_harness_snapshot(
    harness: &HarnessAssets,
    memory_prompts: &MemoryPromptConfig,
    skill_prompts: &SkillPromptConfig,
    maintenance_system_file: bool,
    maintenance_user_template_file: bool,
    learning_system_file: bool,
    learning_user_template_file: bool,
) -> (s: HarnessSnapshot)
    ensures
        s.memory_only_self_evolution,
        s.snapshot_id@ == snapshot_id_of(s.surfaces@),
        s.surfaces@.len() == 11,
        is_surface(s.surfaces@[0], "system.base"@, harness.system_base_template.content@,
            harness.system_base_template.source),
        is_surface(s.surfaces@[1], "subagents.shared"@, harness.subagent_shared_prompt.content@,
            harness.subagent_shared_prompt.source),
        is_surface(s.surfaces@[2], "subagents.explore"@, harness.subagent_explore_prompt.content@,
            harness.subagent_explore_prompt.source),
        is_surface(s.surfaces@[3], "subagents.general_purpose"@,
            harness.subagent_general_prompt.content@, harness.subagent_general_prompt.source),
        is_surface(s.surfaces@[4], "middleware.final_answer_recovery"@,
            harness.final_answer_recovery_template.content@,
            harness.final_answer_recovery_template.source),
        s.surfaces@[5].key@ == "memory.maintenance_system"@ && s.surfaces@[5].content@
            == memory_prompts.maintenance_system@ && repo_source(s.surfaces@[5].source,
            MEMORY_MAINTENANCE_SYSTEM_PATH@, maintenance_system_file),
        s.surfaces@[6].key@ == "memory.maintenance_user_template"@ && s.surfaces@[6].content@
            == memory_prompts.maintenance_user_template@ && repo_source(s.surfaces@[6].source,
            MEMORY_MAINTENANCE_USER_TEMPLATE_PATH@, maintenance_user_template_file),
        s.surfaces@[7].key@ == "skills.learning_system"@ && s.surfaces@[7].content@
            == skill_prompts.learning_system@ && repo_source(s.surfaces@[7].source,
            SKILL_LEARNING_SYSTEM_PATH@, learning_system_file),
        s.surfaces@[8].key@ == "skills.learning_user_template"@ && s.surfaces@[8].content@
            == skill_prompts.learning_user_template@ && repo_source(s.surfaces@[8].source,
            SKILL_LEARNING_USER_TEMPLATE_PATH@, learning_user_template_file),
        is_surface(s.surfaces@[9], "tools.descriptions"@, json_pretty_object(
            ascending_entries(entry_views(harness.tool_descriptions@)),
        ), harness.tool_descriptions_source),
        is_surface(s.surfaces@[10], "middleware.messages"@, json_pretty_object(
            middleware_entries(*harness),
        ), harness.middleware_messages_source),
        forall|i: int| 0 <= i < 11 ==> {
            let x = #[trigger] s.surfaces@[i];
            x.sha1@ == sha1_hex_of(x.content@) && x.bytes as nat == utf8_len(x.content@)
        },
{
    let sorted = sorted_entries(&harness.tool_descriptions);
    proof {
        lemma_ascending_entries(entry_views(harness.tool_descriptions@), entry_views(sorted@));
    }
    assert(entry_views(sorted@) =~= pair_views(sorted@));
    let tool_descriptions = pretty_object(&sorted);
    let m = &harness.middleware_messages;
    let messages = vec![
        (owned("background_results_ack"), owned(m.background_results_ack.as_str())),
        (owned("inbox_ack"), owned(m.inbox_ack.as_str())),
        (owned("steering_ack"), owned(m.steering_ack.as_str())),
        (owned("todo_reminder_ack"), owned(m.todo_reminder_ack.as_str())),
        (owned("todo_reminder_user"), owned(m.todo_reminder_user.as_str())),
    ];
    assert(entry_views(messages@) =~= middleware_entries(*harness));
    proof {
        lemma_middleware_keys_ascending(*harness);
    }
    let middleware_messages = pretty_object(&messages);
    let surfaces = vec![
        surface(
            "system.base",
            harness.system_base_template.content.as_str(),
            harness.system_base_template.source.duplicate(),
        ),
        surface(
            "subagents.shared",
            harness.subagent_shared_prompt.content.as_str(),
            harness.subagent_shared_prompt.source.duplicate(),
        ),
        surface(
            "subagents.explore",
            harness.subagent_explore_prompt.content.as_str(),
            harness.subagent_explore_prompt.source.duplicate(),
        ),
        surface(
            "subagents.general_purpose",
            harness.subagent_general_prompt.content.as_str(),
            harness.subagent_general_prompt.source.duplicate(),
        ),
        surface(
            "middleware.final_answer_recovery",
            harness.final_answer_recovery_template.content.as_str(),
            harness.final_answer_recovery_template.source.duplicate(),
        ),
        surface(
            "memory.maintenance_system",
            memory_prompts.maintenance_system.as_str(),
            resolve_repo_prompt_source(MEMORY_MAINTENANCE_SYSTEM_PATH, maintenance_system_file),
        ),
        surface(
            "memory.maintenance_user_template",
            memory_prompts.maintenance_user_template.as_str(),
            resolve_repo_prompt_source(
                MEMORY_MAINTENANCE_USER_TEMPLATE_PATH,
                maintenance_user_template_file,
            ),
        ),
        surface(
            "skills.learning_system",
            skill_prompts.learning_system.as_str(),
            resolve_repo_prompt_source(SKILL_LEARNING_SYSTEM_PATH, learning_system_file),
        ),
        surface(
            "skills.learning_user_template",
            skill_prompts.learning_user_template.as_str(),
            resolve_repo_prompt_source(
                SKILL_LEARNING_USER_TEMPLATE_PATH,
                learning_user_template_file,
            ),
        ),
        surface(
            "tools.descriptions",
            tool_descriptions.as_str(),
            harness.tool_descriptions_source.duplicate(),
        ),
        surface(
            "middleware.messages",
            middleware_messages.as_str(),
            harness.middleware_messages_source.duplicate(),
        ),
    ];
    let snapshot_id = build_snapshot_id(&surfaces);
    HarnessSnapshot {
        snapshot_id,
        generated_at_ms: unix_time_millis(),
        memory_only_self_evolution: true,
        surfaces,
    }
}

} // verus!
