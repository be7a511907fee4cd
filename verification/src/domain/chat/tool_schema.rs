//! The function tools that the agent offers the model: each a name, a
//! description and a parameter object, written out as the JSON text of an
//! OpenAI-style `{"type": "function", ...}` entry.

use vstd::prelude::*;

use crate::json::{json_quoted, json_string_array, push_json_string, push_json_string_array};
use crate::text::{owned, push_str};

verus! {

/// One property of a tool's parameter object: its name, its JSON schema as
/// text, and whether a call must give it.
#[derive(Debug, Clone)]
pub struct ToolParameter {
    pub name: String,
    pub schema: String,
    pub required: bool,
}

/// A function tool as the model sees it.
#[derive(Debug, Clone)]
pub struct ToolSchema {
    pub name: String,
    pub description: String,
    pub parameters: Vec<ToolParameter>,
}

pub open spec fn param_views(ps: Seq<ToolParameter>) -> Seq<(Seq<char>, Seq<char>, bool)> {
    ps.map_values(|p: ToolParameter| (p.name@, p.schema@, p.required))
}

/// The names of the tools, in order.
pub open spec fn schema_names(ts: Seq<ToolSchema>) -> Seq<Seq<char>> {
    ts.map_values(|t: ToolSchema| t.name@)
}

/// Each tool's parameters (name, schema text, whether required), in order.
pub open spec fn schema_parameters(ts: Seq<ToolSchema>) -> Seq<Seq<(Seq<char>, Seq<char>, bool)>> {
    ts.map_values(|t: ToolSchema| param_views(t.parameters@))
}

/// Each tool's name and description, in order.
pub open spec fn schema_entries_of(ts: Seq<ToolSchema>) -> Seq<(Seq<char>, Seq<char>)> {
    ts.map_values(|t: ToolSchema| (t.name@, t.description@))
}

/// The members of the `properties` object: each parameter's quoted name, a
/// colon and its schema, separated by commas.
pub open spec fn properties_text(ps: Seq<(Seq<char>, Seq<char>, bool)>) -> Seq<char>
    decreases ps.len(),
{
    if ps.len() == 0 {
        Seq::empty()
    } else {
        let head = if ps.len() == 1 {
            Seq::empty()
        } else {
            properties_text(ps.drop_last()) + ","@
        };
        head + json_quoted(ps.last().0) + ":"@ + ps.last().1
    }
}

/// The names of the required parameters, in order.
pub open spec fn required_names(ps: Seq<(Seq<char>, Seq<char>, bool)>) -> Seq<Seq<char>>
    decreases ps.len(),
{
    if ps.len() == 0 {
        Seq::empty()
    } else {
        let prev = required_names(ps.drop_last());
        if ps.last().2 {
            prev.push(ps.last().0)
        } else {
            prev
        }
    }
}

/// The parameter object: an object schema with the given properties, and a
/// `required` list only where some parameter is required.
pub open spec fn parameters_text(ps: Seq<(Seq<char>, Seq<char>, bool)>) -> Seq<char> {
    let req = required_names(ps);
    "{\"type\":\"object\",\"properties\":{"@ + properties_text(ps) + "}"@ + (if req.len() == 0 {
        Seq::empty()
    } else {
        ",\"required\":"@ + json_string_array(req)
    }) + "}"@
}

/// The JSON text of one tool entry.
pub open spec fn tool_schema_text(
    name: Seq<char>,
    description: Seq<char>,
    ps: Seq<(Seq<char>, Seq<char>, bool)>,
) -> Seq<char> {
    "{\"type\":\"function\",\"function\":{\"name\":"@ + json_quoted(name) + ",\"description\":"@
        + json_quoted(description) + ",\"parameters\":"@ + parameters_text(ps) + "}}"@
}

/// A parameter with the given name and schema text.
pub fn tool_parameter(name: &str, schema: &str, required: bool) -> (p: ToolParameter)
    ensures
        p.name@ == name@,
        p.schema@ == schema@,
        p.required == required,
{
    ToolParameter { name: owned(name), schema: owned(schema), required }
}

/// A tool with the given name, description and parameters.
pub fn tool_schema(name: &str, description: &str, parameters: Vec<ToolParameter>) -> (t: ToolSchema)
    ensures
        t.name@ == name@,
        t.description@ == description@,
        t.parameters@ == parameters@,
{
    ToolSchema { name: owned(name), description: owned(description), parameters }
}

fn required_list(ps: &Vec<ToolParameter>) -> (r: Vec<String>)
    ensures
        r@.map_values(|s: String| s@) == required_names(param_views(ps@)),
{
    let ghost all = param_views(ps@);
    let mut r: Vec<String> = Vec::new();
    let mut i: usize = 0;
    assert(all.take(0) =~= Seq::<(Seq<char>, Seq<char>, bool)>::empty());
    assert(r@.map_values(|s: String| s@) =~= Seq::<Seq<char>>::empty());
    while i < ps.len()
        invariant
            0 <= i <= ps.len(),
            all == param_views(ps@),
            r@.map_values(|s: String| s@) == required_names(all.take(i as int)),
        decreases ps.len() - i,
    {
        let ghost pre = all.take(i + 1);
        assert(pre.drop_last() =~= all.take(i as int));
        assert(pre.last() == (ps@[i as int].name@, ps@[i as int].schema@, ps@[i as int].required));
        if ps[i].required {
            let ghost before = r@;
            r.push(owned(ps[i].name.as_str()));
            assert(r@.map_values(|s: String| s@) =~= before.map_values(|s: String| s@).push(
                ps@[i as int].name@,
            ));
        }
        i += 1;
    }
    assert(all.take(ps.len() as int) =~= all);
    r
}

/// Appends the parameter object of a tool.
fn push_parameters(out: &mut String, ps: &Vec<ToolParameter>)
    ensures
        final(out)@ == old(out)@ + parameters_text(param_views(ps@)),
{
    let ghost start = out@;
    let ghost all = param_views(ps@);
    push_str(out, "{\"type\":\"object\",\"properties\":{");
    let mut i: usize = 0;
    assert(all.take(0) =~= Seq::<(Seq<char>, Seq<char>, bool)>::empty());
    while i < ps.len()
        invariant
            0 <= i <= ps.len(),
            all == param_views(ps@),
            out@ == start + "{\"type\":\"object\",\"properties\":{"@ + properties_text(
                all.take(i as int),
            ),
        decreases ps.len() - i,
    {
        let ghost pre = all.take(i + 1);
        assert(pre.drop_last() =~= all.take(i as int));
        assert(pre.last() == (ps@[i as int].name@, ps@[i as int].schema@, ps@[i as int].required));
        if i > 0 {
            push_str(out, ",");
        }
        push_json_string(out, ps[i].name.as_str());
        push_str(out, ":");
        push_str(out, ps[i].schema.as_str());
        proof {
            if i == 0 {
                assert(all.take(0) =~= Seq::<(Seq<char>, Seq<char>, bool)>::empty());
            }
        }
        assert(out@ =~= start + "{\"type\":\"object\",\"properties\":{"@ + properties_text(pre));
        i += 1;
    }
    assert(all.take(ps.len() as int) =~= all);
    push_str(out, "}");
    let req = required_list(ps);
    if req.len() > 0 {
        push_str(out, ",\"required\":");
        push_json_string_array(out, &req);
    }
    push_str(out, "}");
    assert(out@ =~= start + parameters_text(all));
}

/// The JSON text of a tool entry, as `tool_schema_text` states.
pub fn tool_schema_json(t: &ToolSchema) -> (r: String)
    ensures
        r@ == tool_schema_text(t.name@, t.description@, param_views(t.parameters@)),
{
    let mut out = String::new();
    push_str(&mut out, "{\"type\":\"function\",\"function\":{\"name\":");
    push_json_string(&mut out, t.name.as_str());
    push_str(&mut out, ",\"description\":");
    push_json_string(&mut out, t.description.as_str());
    push_str(&mut out, ",\"parameters\":");
    push_parameters(&mut out, &t.parameters);
    push_str(&mut out, "}}");
    assert(out@ =~= tool_schema_text(t.name@, t.description@, param_views(t.parameters@)));
    out
}

/// The JSON text of each tool entry, in order.
pub fn tool_schemas_json(ts: &Vec<ToolSchema>) -> (r: Vec<String>)
    ensures
        r@.len() == ts@.len(),
        forall|i: int|
            0 <= i < ts@.len() ==> (#[trigger] r@[i])@ == tool_schema_text(
                ts@[i].name@,
                ts@[i].description@,
                param_views(ts@[i].parameters@),
            ),
{
    let mut r: Vec<String> = Vec::new();
    let mut i: usize = 0;
    while i < ts.len()
        invariant
            0 <= i <= ts.len(),
            r@.len() == i,
            forall|j: int|
                0 <= j < i ==> (#[trigger] r@[j])@ == tool_schema_text(
                    ts@[j].name@,
                    ts@[j].description@,
                    param_views(ts@[j].parameters@),
                ),
        decreases ts.len() - i,
    {
        r.push(tool_schema_json(&ts[i]));
        i += 1;
    }
    r
}

/// Each tool's name and description, in order.
pub fn tool_entries(ts: &Vec<ToolSchema>) -> (r: Vec<(String, String)>)
    ensures
        crate::json::entry_views(r@) == schema_entries_of(ts@),
{
    let mut r: Vec<(String, String)> = Vec::new();
    let mut i: usize = 0;
    while i < ts.len()
        invariant
            0 <= i <= ts.len(),
            crate::json::entry_views(r@) == schema_entries_of(ts@).take(i as int),
        decreases ts.len() - i,
    {
        let ghost before = r@;
        r.push((owned(ts[i].name.as_str()), owned(ts[i].description.as_str())));
        assert(crate::json::entry_views(r@) =~= crate::json::entry_views(before).push(
            (ts@[i as int].name@, ts@[i as int].description@),
        ));
        assert(schema_entries_of(ts@).take(i + 1) =~= schema_entries_of(ts@).take(i as int).push(
            (ts@[i as int].name@, ts@[i as int].description@),
        ));
        i += 1;
    }
    assert(schema_entries_of(ts@).take(ts.len() as int) =~= schema_entries_of(ts@));
    r
}

/// Appends the tools of `more` to `tools`.
pub fn extend_tools(tools: &mut Vec<ToolSchema>, more: Vec<ToolSchema>)
    ensures
        final(tools)@ == old(tools)@ + more@,
{
    let mut more = more;
    tools.append(&mut more);
}

} // verus!
