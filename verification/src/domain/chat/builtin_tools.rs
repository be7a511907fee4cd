use vstd::prelude::*;

use crate::domain::chat::compaction::{compaction_tool_entries, public_compaction_tool_schemas};
use crate::domain::chat::tool_schema::{extend_tools, param_views, schema_entries_of, tool_parameter, tool_schema, ToolSchema};
use crate::domain::session::service::{session_tool_entries, SessionService};
use crate::domain::tasks::service::{public_task_tool_schemas, task_tool_entries};
use crate::json::entry_views;
use crate::lists::{contains_text, texts};
use crate::order::{ascending_entries, entries_map, keys_ascending, lemma_ascending_entries, pair_views, sorted_entries};
use crate::text::{is_empty_text, owned, str_eq, trim, trim_seq};

verus! {

/// A built-in tool as the settings page lists it.
#[derive(Debug, Clone)]
pub struct BuiltinToolPreview {
    pub name: String,
    pub label: String,
    pub description: String,
}

/// The registry entries of the tool schemas, given as the name and the
/// description of each schema's function: both trimmed, schemas with a blank
/// name left out.
pub open spec fn schema_entries(schemas: Seq<(Seq<char>, Seq<char>)>) -> Seq<(Seq<char>, Seq<char>)>
    decreases schemas.len(),
{
    if schemas.len() == 0 {
        Seq::empty()
    } else {
        let prev = schema_entries(schemas.drop_last());
        let name = trim_seq(schemas.last().0);
        if name.len() == 0 {
            prev
        } else {
            prev.push((name, trim_seq(schemas.last().1)))
        }
    }
}

/// The registry: one entry per tool name, names in order, each with the
/// description of the first schema that names it.
pub open spec fn registry(schemas: Seq<(Seq<char>, Seq<char>)>) -> Seq<(Seq<char>, Seq<char>)> {
    ascending_entries(schema_entries(schemas).reverse())
}

pub open spec fn preview_views(v: Seq<BuiltinToolPreview>) -> Seq<(Seq<char>, Seq<char>)> {
    v.map_values(|p: BuiltinToolPreview| (p.name@, p.description@))
}

/// The built-in tools that the given schemas define, as `registry` states;
/// each is labelled with its name.
pub fn builtin_tool_previews(schemas: &Vec<(String, String)>) -> (r: Vec<BuiltinToolPreview>)
    ensures
        preview_views(r@) == registry(entry_views(schemas@)),
        forall|i: int| 0 <= i < r@.len() ==> (#[trigger] r@[i]).label@ == r@[i].name@,
{
    let ghost all = entry_views(schemas@);
    // the entries, trimmed, last schema first
    let mut rev: Vec<(String, String)> = Vec::new();
    let mut i: usize = schemas.len();
    assert(all.take(i as int) =~= all);
    assert(pair_views(rev@) =~= schema_entries(all.skip(i as int)).reverse()) by {
        assert(all.skip(i as int) =~= Seq::<(Seq<char>, Seq<char>)>::empty());
    }
    let ghost mut kept: Seq<(Seq<char>, Seq<char>)> = Seq::empty();
    while i > 0
        invariant
            0 <= i <= schemas.len(),
            all == entry_views(schemas@),
            pair_views(rev@) == kept,
            schema_entries(all) == schema_entries(all.take(i as int)) + kept.reverse(),
        decreases i,
    {
        let ghost pre = all.take(i as int);
        assert(pre.drop_last() =~= all.take(i - 1));
        assert(pre.last() == all[i - 1]);
        let name = trim(schemas[i - 1].0.as_str());
        if !is_empty_text(name.as_str()) {
            let description = trim(schemas[i - 1].1.as_str());
            let ghost e = (name@, description@);
            rev.push((name, description));
            proof {
                let old_kept = kept;
                kept = kept.push(e);
                assert(pair_views(rev@) =~= kept);
                assert(kept.reverse() =~= seq![e] + old_kept.reverse());
                assert(schema_entries(pre) == schema_entries(all.take(i - 1)).push(e));
                assert(schema_entries(all.take(i - 1)).push(e) + old_kept.reverse()
                    =~= schema_entries(all.take(i - 1)) + kept.reverse());
            }
        }
        i -= 1;
    }
    proof {
        assert(all.take(0) =~= Seq::<(Seq<char>, Seq<char>)>::empty());
        assert(schema_entries(all) =~= kept.reverse());
        assert(kept =~= schema_entries(all).reverse());
    }
    let sorted = sorted_entries(&rev);
    proof {
        lemma_ascending_entries(schema_entries(all).reverse(), pair_views(sorted@));
    }
    let mut r: Vec<BuiltinToolPreview> = Vec::new();
    let mut k: usize = 0;
    while k < sorted.len()
        invariant
            0 <= k <= sorted.len(),
            r@.len() == k,
            forall|j: int|
                0 <= j < k ==> (#[trigger] r@[j]).name@ == sorted@[j].0@ && r@[j].label@
                    == sorted@[j].0@ && r@[j].description@ == sorted@[j].1@,
        decreases sorted.len() - k,
    {
        r.push(
            BuiltinToolPreview {
                name: owned(sorted[k].0.as_str()),
                label: owned(sorted[k].0.as_str()),
                description: owned(sorted[k].1.as_str()),
            },
        );
        k += 1;
    }
    assert(preview_views(r@) =~= pair_views(sorted@));
    r
}

/// The names of the built-in tools that the given schemas define, in order.
pub fn builtin_tool_names(schemas: &Vec<(String, String)>) -> (r: Vec<String>)
    ensures
        texts(r@) == registry(entry_views(schemas@)).map_values(
            |e: (Seq<char>, Seq<char>)| e.0,
        ),
{
    let previews = builtin_tool_previews(schemas);
    let mut r: Vec<String> = Vec::new();
    let mut k: usize = 0;
    while k < previews.len()
        invariant
            0 <= k <= previews.len(),
            r@.len() == k,
            forall|j: int| 0 <= j < k ==> (#[trigger] r@[j])@ == previews@[j].name@,
        decreases previews.len() - k,
    {
        r.push(owned(previews[k].name.as_str()));
        k += 1;
    }
    assert(texts(r@) =~= preview_views(previews@).map_values(|e: (Seq<char>, Seq<char>)| e.0));
    r
}

/// Whether the trimmed name is that of a built-in tool the schemas define.
pub fn is_builtin_tool(name: &str, schemas: &Vec<(String, String)>) -> (b: bool)
    ensures
        b == (trim_seq(name@).len() > 0 && exists|i: int|
            0 <= i < registry(entry_views(schemas@)).len() && #[trigger] registry(
                entry_views(schemas@),
            )[i].0 == trim_seq(name@)),
{
    let normalized = trim(name);
    if is_empty_text(normalized.as_str()) {
        return false;
    }
    let previews = builtin_tool_previews(schemas);
    let ghost reg = registry(entry_views(schemas@));
    let mut k: usize = 0;
    while k < previews.len()
        invariant
            0 <= k <= previews.len(),
            reg == registry(entry_views(schemas@)),
            normalized@ == trim_seq(name@),
            trim_seq(name@).len() > 0,
            preview_views(previews@) == reg,
            forall|j: int| 0 <= j < k ==> (#[trigger] reg[j]).0 != normalized@,
        decreases previews.len() - k,
    {
        assert(reg[k as int] == (previews@[k as int].name@, previews@[k as int].description@));
        if str_eq(previews[k].name.as_str(), normalized.as_str()) {
            assert(registry(entry_views(schemas@))[k as int].0 == trim_seq(name@));
            return true;
        }
        k += 1;
    }
    false
}

} // verus!

verus! {

/// The subagent tool.
pub open spec fn subagent_tool_entry() -> (Seq<char>, Seq<char>) {
    ("task"@, "Spawn a subagent for isolated exploration or work. Returns a summary."@)
}

/// The skill loading tool.
pub open spec fn load_skill_tool_entry() -> (Seq<char>, Seq<char>) {
    ("load_skill"@, "Load the full content of a named skill when the task requires it."@)
}

/// The subagent tool: a prompt and an optional agent type.
pub fn subagent_tool() -> (t: ToolSchema)
    ensures
        (t.name@, t.description@) == subagent_tool_entry(),
        param_views(t.parameters@) == seq![
            ("prompt"@, r#"{"type":"string"}"#@, true),
            ("agent_type"@, r#"{"type":"string","enum":["Explore","general-purpose"]}"#@, false),
        ],
{
    tool_schema(
        "task",
        "Spawn a subagent for isolated exploration or work. Returns a summary.",
        vec![
            tool_parameter("prompt", r#"{"type":"string"}"#, true),
            tool_parameter("agent_type", r#"{"type":"string","enum":["Explore","general-purpose"]}"#, false),
        ],
    )
}

/// The skill loading tool: the name of the skill.
pub fn load_skill_tool() -> (t: ToolSchema)
    ensures
        (t.name@, t.description@) == load_skill_tool_entry(),
        param_views(t.parameters@) == seq![
            ("name"@, r#"{"type":"string","description":"The skill name to load."}"#@, true),
        ],
{
    tool_schema(
        "load_skill",
        "Load the full content of a named skill when the task requires it.",
        vec![tool_parameter("name", r#"{"type":"string","description":"The skill name to load."}"#, true)],
    )
}

/// The built-in tools of the registry, in order: the file tools, the context
/// tools, the task-board tools, the worktree tools, the subagent tool, the
/// session tools where asked for, and skill loading last.
pub open spec fn builtin_tool_entries(
    file_tools: Seq<(Seq<char>, Seq<char>)>,
    worktree_tools: Seq<(Seq<char>, Seq<char>)>,
    include_session_tools: bool,
) -> Seq<(Seq<char>, Seq<char>)> {
    file_tools + compaction_tool_entries() + task_tool_entries() + worktree_tools + seq![
        subagent_tool_entry(),
    ] + (if include_session_tools {
        session_tool_entries()
    } else {
        Seq::empty()
    }) + seq![load_skill_tool_entry()]
}

/// The built-in tool schemas, given the file and worktree tools, as
/// `builtin_tool_entries` orders them.
pub fn builtin_tool_schemas(
    file_tools: Vec<ToolSchema>,
    worktree_tools: Vec<ToolSchema>,
    include_session_tools: bool,
) -> (r: Vec<ToolSchema>)
    ensures
        schema_entries_of(r@) == builtin_tool_entries(
            schema_entries_of(file_tools@),
            schema_entries_of(worktree_tools@),
            include_session_tools,
        ),
{
    let ghost file_view = file_tools@;
    let ghost worktree_view = worktree_tools@;
    let mut tools = file_tools;
    let compaction = public_compaction_tool_schemas();
    let ghost compaction_view = compaction@;
    extend_tools(&mut tools, compaction);
    let tasks = public_task_tool_schemas();
    let ghost tasks_view = tasks@;
    extend_tools(&mut tools, tasks);
    extend_tools(&mut tools, worktree_tools);
    let subagent = subagent_tool();
    let ghost subagent_view = subagent;
    tools.push(subagent);
    let ghost mid = tools@;
    let ghost session_view: Seq<ToolSchema> = Seq::empty();
    if include_session_tools {
        let session = SessionService::session_tool_schemas();
        proof {
            session_view = session@;
        }
        extend_tools(&mut tools, session);
    }
    let load_skill = load_skill_tool();
    let ghost load_skill_view = load_skill;
    tools.push(load_skill);
    proof {
        assert(tools@ =~= file_view + compaction_view + tasks_view + worktree_view + seq![subagent_view]
            + session_view + seq![load_skill_view]);
        assert(schema_entries_of(session_view) =~= (if include_session_tools {
            session_tool_entries()
        } else {
            Seq::empty()
        }));
        assert(schema_entries_of(tools@) =~= schema_entries_of(file_view) + schema_entries_of(
            compaction_view,
        ) + schema_entries_of(tasks_view) + schema_entries_of(worktree_view) + schema_entries_of(
            seq![subagent_view],
        ) + schema_entries_of(session_view) + schema_entries_of(seq![load_skill_view]));
    }
    tools
}

} // verus!

verus! {

/// Whether the registry has a tool of this name.
pub open spec fn registered(reg: Seq<(Seq<char>, Seq<char>)>, name: Seq<char>) -> bool {
    exists|i: int| 0 <= i < reg.len() && #[trigger] reg[i].0 == name
}

/// The names of a tool list that the registry knows: each trimmed, blank and
/// unknown names left out, and each name kept at its first place only.
pub open spec fn known_tool_list(values: Seq<Seq<char>>, reg: Seq<(Seq<char>, Seq<char>)>) -> Seq<Seq<char>>
    decreases values.len(),
{
    if values.len() == 0 {
        Seq::empty()
    } else {
        let prev = known_tool_list(values.drop_last(), reg);
        let t = trim_seq(values.last());
        if t.len() > 0 && registered(reg, t) && !prev.contains(t) {
            prev.push(t)
        } else {
            prev
        }
    }
}

/// Each name of a known tool list is trimmed, not blank, registered and
/// taken from the list's trimmed values, and no name comes twice.
pub proof fn lemma_known_tool_list_shape(values: Seq<Seq<char>>, reg: Seq<(Seq<char>, Seq<char>)>)
    ensures
        known_tool_list(values, reg).no_duplicates(),
        forall|k: int|
            0 <= k < known_tool_list(values, reg).len() ==> {
                let x = #[trigger] known_tool_list(values, reg)[k];
                &&& trim_seq(x) == x
                &&& x.len() > 0
                &&& registered(reg, x)
                &&& values.map_values(|v: Seq<char>| trim_seq(v)).contains(x)
            },
    decreases values.len(),
{
    if values.len() > 0 {
        let pv = values.drop_last();
        lemma_known_tool_list_shape(pv, reg);
        crate::text::lemma_trim_idempotent(values.last());
        let prev = known_tool_list(pv, reg);
        let out = known_tool_list(values, reg);
        let tv = values.map_values(|v: Seq<char>| trim_seq(v));
        let tp = pv.map_values(|v: Seq<char>| trim_seq(v));
        assert forall|k: int| 0 <= k < out.len() implies {
            let x = #[trigger] out[k];
            &&& trim_seq(x) == x
            &&& x.len() > 0
            &&& registered(reg, x)
            &&& tv.contains(x)
        } by {
            if k < prev.len() {
                assert(out[k] == prev[k]);
                let j = choose|j: int| 0 <= j < tp.len() && tp[j] == prev[k];
                assert(tv[j] == tp[j]);
            } else {
                assert(tv[values.len() - 1] == trim_seq(values.last()));
            }
        }
    }
}

/// A list already as `known_tool_list` leaves it comes out unchanged.
pub proof fn lemma_known_tool_list_fixed(list: Seq<Seq<char>>, reg: Seq<(Seq<char>, Seq<char>)>)
    requires
        list.no_duplicates(),
        forall|k: int|
            0 <= k < list.len() ==> {
                let x = #[trigger] list[k];
                trim_seq(x) == x && x.len() > 0 && registered(reg, x)
            },
    ensures
        known_tool_list(list, reg) == list,
    decreases list.len(),
{
    if list.len() > 0 {
        let pl = list.drop_last();
        assert forall|a: int, b: int| 0 <= a < b < pl.len() implies pl[a] != pl[b] by {
            assert(list[a] != list[b]);
        }
        assert forall|k: int| 0 <= k < pl.len() implies {
            let x = #[trigger] pl[k];
            trim_seq(x) == x && x.len() > 0 && registered(reg, x)
        } by {
            assert(pl[k] == list[k]);
        }
        lemma_known_tool_list_fixed(pl, reg);
        let x = list.last();
        assert(x == list[list.len() - 1]);
        if pl.contains(x) {
            let j = choose|j: int| 0 <= j < pl.len() && pl[j] == x;
            assert(list[j] == list[list.len() - 1]);
        }
        assert(pl.push(x) =~= list);
    }
}

/// `a` is `b` with some items left out, the rest in their order.
pub open spec fn is_subsequence(a: Seq<Seq<char>>, b: Seq<Seq<char>>) -> bool {
    exists|idx: Seq<int>| positions_of(a, b, idx)
}

/// `idx` gives, in increasing order, where each item of `a` stands in `b`.
pub open spec fn positions_of(a: Seq<Seq<char>>, b: Seq<Seq<char>>, idx: Seq<int>) -> bool {
    &&& idx.len() == a.len()
    &&& forall|k: int| 0 <= k < a.len() ==> 0 <= #[trigger] idx[k] < b.len() && a[k] == b[idx[k]]
    &&& forall|i: int, j: int| 0 <= i < j < idx.len() ==> #[trigger] idx[i] < #[trigger] idx[j]
}

proof fn known_tool_list_positions(values: Seq<Seq<char>>, reg: Seq<(Seq<char>, Seq<char>)>) -> (idx:
    Seq<int>)
    ensures
        positions_of(known_tool_list(values, reg), values.map_values(|v: Seq<char>| trim_seq(v)), idx),
        forall|k: int| 0 <= k < idx.len() ==> #[trigger] idx[k] < values.len(),
    decreases values.len(),
{
    if values.len() == 0 {
        Seq::empty()
    } else {
        let pv = values.drop_last();
        let p = known_tool_list_positions(pv, reg);
        let tv = values.map_values(|v: Seq<char>| trim_seq(v));
        let tp = pv.map_values(|v: Seq<char>| trim_seq(v));
        let prev = known_tool_list(pv, reg);
        let out = known_tool_list(values, reg);
        assert forall|k: int| 0 <= k < p.len() implies tv[p[k]] == tp[p[k]] by {}
        if out.len() == prev.len() {
            assert(out =~= prev);
            p
        } else {
            let q = p.push(values.len() - 1);
            assert(out =~= prev.push(trim_seq(values.last())));
            assert forall|k: int| 0 <= k < out.len() implies 0 <= #[trigger] q[k] < tv.len() && out[k]
                == tv[q[k]] by {
                if k < prev.len() {
                    assert(q[k] == p[k]);
                }
            }
            q
        }
    }
}

/// Normalising a tool list leaves no name twice, keeps the trimmed names of
/// the list in their order (leaving some out), and changes nothing the
/// second time.
pub proof fn lemma_known_tool_list_idempotent(values: Seq<Seq<char>>, reg: Seq<(Seq<char>, Seq<char>)>)
    ensures
        known_tool_list(values, reg).no_duplicates(),
        forall|k: int|
            0 <= k < known_tool_list(values, reg).len() ==> values.map_values(
                |v: Seq<char>| trim_seq(v),
            ).contains(#[trigger] known_tool_list(values, reg)[k]),
        is_subsequence(known_tool_list(values, reg), values.map_values(|v: Seq<char>| trim_seq(v))),
        known_tool_list(known_tool_list(values, reg), reg) == known_tool_list(values, reg),
{
    let idx = known_tool_list_positions(values, reg);
    lemma_known_tool_list_shape(values, reg);
    lemma_known_tool_list_fixed(known_tool_list(values, reg), reg);
}

/// A list of built-in tool names as the settings keep it: as
/// `known_tool_list` states, against the tools the schemas define.
pub fn normalize_builtin_tool_list(values: &Vec<String>, schemas: &Vec<(String, String)>) -> (r: Vec<String>)
    ensures
        texts(r@) == known_tool_list(texts(values@), registry(entry_views(schemas@))),
{
    let ghost vs = texts(values@);
    let ghost reg = registry(entry_views(schemas@));
    let mut r: Vec<String> = Vec::new();
    let mut i: usize = 0;
    assert(vs.take(0) =~= Seq::<Seq<char>>::empty());
    assert(texts(r@) =~= Seq::<Seq<char>>::empty());
    while i < values.len()
        invariant
            0 <= i <= values.len(),
            vs == texts(values@),
            reg == registry(entry_views(schemas@)),
            texts(r@) == known_tool_list(vs.take(i as int), reg),
        decreases values.len() - i,
    {
        assert(vs.take(i + 1).drop_last() =~= vs.take(i as int));
        assert(vs.take(i + 1).last() == values@[i as int]@);
        let t = trim(values[i].as_str());
        if !is_empty_text(t.as_str()) && is_builtin_tool(t.as_str(), schemas) && !contains_text(&r, t.as_str()) {
            proof {
                crate::text::lemma_trim_idempotent(values@[i as int]@);
            }
            let ghost before = texts(r@);
            r.push(t);
            assert(texts(r@) =~= before.push(trim_seq(values@[i as int]@)));
        } else {
            proof {
                crate::text::lemma_trim_idempotent(values@[i as int]@);
            }
        }
        i += 1;
    }
    assert(vs.take(values.len() as int) =~= vs);
    r
}

} // verus!
