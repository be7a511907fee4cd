use vstd::prelude::*;

use crate::domain::chat::tool_schema::{schema_entries_of, schema_parameters, tool_parameter, tool_schema, ToolSchema};
use crate::domain::chat::models::SkillUsage;
use crate::domain::harness::{render_template, rendered_template};
use crate::domain::memory::service::{content_argument, normalize_text, normalized_text};
use crate::domain::skills::models::{SkillDocument, SkillScope};
use crate::json::json_str_field;
use crate::text::{
    byte_len, concat2, decimal, is_empty_text, owned, push_str, str_eq, trim, trim_seq,
    usize_to_decimal, utf8_len,
};

verus! {

// ---------------------------------------------------------------------------
// The skills listed in a system prompt
// ---------------------------------------------------------------------------

pub open spec fn description_line(name: Seq<char>, description: Seq<char>, tags: Seq<char>) -> Seq<
    char,
> {
    "  - "@ + name + ": "@ + (if description.len() == 0 {
        "No description"@
    } else {
        description
    }) + (if tags.len() == 0 {
        Seq::empty()
    } else {
        " [tags: "@ + tags + "]"@
    })
}

pub open spec fn description_lines(items: Seq<SkillDocument>) -> Seq<char>
    decreases items.len(),
{
    if items.len() == 0 {
        Seq::empty()
    } else if items.len() == 1 {
        description_line(items[0].name@, items[0].description@, items[0].tags@)
    } else {
        description_lines(items.drop_last()) + "\n"@ + description_line(
            items.last().name@,
            items.last().description@,
            items.last().tags@,
        )
    }
}

/// The skills as the system prompt lists them, one per line, or
/// `(no skills available)`.
pub fn render_descriptions(items: &Vec<SkillDocument>) -> (s: String)
    ensures
        s@ == if items@.len() == 0 {
            "(no skills available)"@
        } else {
            description_lines(items@)
        },
{
    if items.len() == 0 {
        return owned("(no skills available)");
    }
    let ghost its = items@;
    let mut s = String::new();
    let mut i: usize = 0;
    assert(its.take(0) =~= Seq::<SkillDocument>::empty());
    while i < items.len()
        invariant
            0 <= i <= items.len(),
            its == items@,
            s@ == description_lines(its.take(i as int)),
        decreases items.len() - i,
    {
        let item = &items[i];
        assert(its.take(i + 1).drop_last() =~= its.take(i as int));
        assert(its.take(i + 1).last() == *item);
        if i > 0 {
            push_str(&mut s, "\n");
        } else {
            assert(its.take(1) =~= seq![*item]);
        }
        push_str(&mut s, "  - ");
        push_str(&mut s, item.name.as_str());
        push_str(&mut s, ": ");
        if is_empty_text(item.description.as_str()) {
            push_str(&mut s, "No description");
        } else {
            push_str(&mut s, item.description.as_str());
        }
        if !is_empty_text(item.tags.as_str()) {
            push_str(&mut s, " [tags: ");
            push_str(&mut s, item.tags.as_str());
            push_str(&mut s, "]");
        }
        i += 1;
    }
    assert(its.take(items.len() as int) =~= its);
    s
}

// ---------------------------------------------------------------------------
// Which skills a turn used
// ---------------------------------------------------------------------------

/// The usages with their names trimmed, blank names and later usages of a name
/// dropped, in order.
pub open spec fn unique_usages_of(us: Seq<(Seq<char>, SkillScope)>) -> Seq<(Seq<char>, SkillScope)>
    decreases us.len(),
{
    if us.len() == 0 {
        Seq::empty()
    } else {
        let prev = unique_usages_of(us.drop_last());
        let n = trim_seq(us.last().0);
        if n.len() == 0 || prev.map_values(|u: (Seq<char>, SkillScope)| u.0).contains(n) {
            prev
        } else {
            prev.push((n, us.last().1))
        }
    }
}

pub open spec fn usage_views(v: Seq<SkillUsage>) -> Seq<(Seq<char>, SkillScope)> {
    v.map_values(|u: SkillUsage| (u.name@, u.scope))
}

pub fn unique_usages(usages: &Vec<SkillUsage>) -> (r: Vec<SkillUsage>)
    ensures
        usage_views(r@) == unique_usages_of(usage_views(usages@)),
{
    let ghost us = usage_views(usages@);
    let mut r: Vec<SkillUsage> = Vec::new();
    let mut i: usize = 0;
    while i < usages.len()
        invariant
            0 <= i <= usages.len(),
            us == usage_views(usages@),
            usage_views(r@) == unique_usages_of(us.take(i as int)),
        decreases usages.len() - i,
    {
        assert(us.take(i + 1).drop_last() =~= us.take(i as int));
        assert(us.take(i + 1).last() == us[i as int]);
        let name = trim(usages[i].name.as_str());
        let ghost names = usage_views(r@).map_values(|u: (Seq<char>, SkillScope)| u.0);
        let mut seen = false;
        let mut k: usize = 0;
        while k < r.len()
            invariant
                0 <= k <= r.len(),
                names == usage_views(r@).map_values(|u: (Seq<char>, SkillScope)| u.0),
                seen == exists|j: int| 0 <= j < k && names[j] == name@,
            decreases r.len() - k,
        {
            if str_eq(r[k].name.as_str(), name.as_str()) {
                assert(names[k as int] == name@);
                seen = true;
            }
            proof {
                if !seen {
                    assert forall|j: int| 0 <= j < k + 1 implies names[j] != name@ by {
                        if j == k {
                            assert(names[j] == r@[j].name@);
                        }
                    }
                }
            }
            k += 1;
        }
        proof {
            if names.contains(name@) {
                let j = choose|j: int| 0 <= j < names.len() && names[j] == name@;
                assert(j < r.len());
            }
            if seen {
                let j = choose|j: int| 0 <= j < k && names[j] == name@;
                assert(names.contains(name@));
            }
        }
        if !is_empty_text(name.as_str()) && !seen {
            let ghost before = usage_views(r@);
            let u = SkillUsage { name, scope: usages[i].scope };
            let ghost uv = (u.name@, u.scope);
            r.push(u);
            assert(usage_views(r@) =~= before.push(uv));
        }
        i += 1;
    }
    assert(us.take(usages.len() as int) =~= us);
    r
}

// ---------------------------------------------------------------------------
// Rewriting a private skill
// ---------------------------------------------------------------------------

/// What reading the private skill body answers: its size in bytes and the
/// trimmed body, or `(empty)`.
pub open spec fn private_body_text(body: Seq<char>) -> Seq<char> {
    let b = trim_seq(body);
    "SKILL.md body ("@ + decimal(utf8_len(b)) + " chars)\n"@ + (if b.len() == 0 {
        "(empty)"@
    } else {
        b
    })
}

pub fn read_private_skill_body(body: &str) -> (s: String)
    ensures
        s@ == private_body_text(body@),
{
    let b = trim(body);
    let mut s = owned("SKILL.md body (");
    push_str(&mut s, usize_to_decimal(byte_len(b.as_str())).as_str());
    push_str(&mut s, " chars)\n");
    if is_empty_text(b.as_str()) {
        push_str(&mut s, "(empty)");
    } else {
        push_str(&mut s, b.as_str());
    }
    s
}

/// What a write of the private skill body does.
#[derive(Debug)]
pub enum SkillBodyWrite {
    /// Answer with this text and leave the skill as it is.
    Reply { text: String },
    /// Write this normalized body.
    Write { body: String },
}

/// Decides a write of the private skill body: a body that normalizes to
/// nothing is refused, one equal to the trimmed current body changes nothing.
pub fn plan_private_body_write(content: &str, current_body: &str) -> (w: SkillBodyWrite)
    ensures
        normalized_text(content@).len() == 0 ==> (w matches SkillBodyWrite::Reply { text } && text@
            == "Error: Skill body cannot be empty."@),
        normalized_text(content@).len() > 0 && normalized_text(content@) == trim_seq(
            current_body@,
        ) ==> (w matches SkillBodyWrite::Reply { text } && text@ == "SKILL.md unchanged ("@
            + decimal(utf8_len(normalized_text(content@))) + " chars)."@),
        normalized_text(content@).len() > 0 && normalized_text(content@) != trim_seq(
            current_body@,
        ) ==> (w matches SkillBodyWrite::Write { body } && body@ == normalized_text(content@)),
{
    let normalized = normalize_text(content);
    if is_empty_text(normalized.as_str()) {
        return SkillBodyWrite::Reply { text: owned("Error: Skill body cannot be empty.") };
    }
    let current = trim(current_body);
    if str_eq(normalized.as_str(), current.as_str()) {
        let mut t = owned("SKILL.md unchanged (");
        push_str(&mut t, usize_to_decimal(byte_len(normalized.as_str())).as_str());
        push_str(&mut t, " chars).");
        return SkillBodyWrite::Reply { text: t };
    }
    SkillBodyWrite::Write { body: normalized }
}

/// The answer after the body was written.
pub fn private_body_updated(new_body: &str) -> (s: String)
    ensures
        s@ == "SKILL.md updated ("@ + decimal(utf8_len(new_body@)) + " chars)."@,
{
    let mut s = owned("SKILL.md updated (");
    push_str(&mut s, usize_to_decimal(byte_len(new_body)).as_str());
    push_str(&mut s, " chars).");
    s
}

/// What a call of one of the skill learner's tools asks for.
#[derive(Debug)]
pub enum SkillToolStep {
    /// Answer with the body as `read_private_skill_body` renders it.
    ReadBody,
    /// Write this content (to be planned with `plan_private_body_write`).
    WriteBody { content: String },
    /// Answer the call with this text.
    Reply { text: String },
}

/// Decides what a call of a learner's tool does; the body may only be written
/// after it was read.
pub fn dispatch_private_skill_update_tool(body_read: &mut bool, name: &str, arguments: &str) -> (step:
    SkillToolStep)
    ensures
        name@ == "read_private_skill_body"@ ==> (step is ReadBody && *final(body_read)),
        name@ == "write_private_skill_body"@ ==> *final(body_read) == *old(body_read) && (if *old(body_read) {
            step matches SkillToolStep::WriteBody { content } && content@ == content_argument(
                arguments@,
            )
        } else {
            step matches SkillToolStep::Reply { text } && text@
                == "Error: Read the private skill body before writing it."@
        }),
        name@ != "read_private_skill_body"@ && name@ != "write_private_skill_body"@ ==> *final(body_read)
            == *old(body_read),
        name@ != "read_private_skill_body"@ && name@ != "write_private_skill_body"@ ==> (
        step matches SkillToolStep::Reply { text } && text@ == "Error: Unknown tool "@ + name@),
{
    proof {
        reveal_strlit("read_private_skill_body");
        reveal_strlit("write_private_skill_body");
        assert("read_private_skill_body"@.len() != "write_private_skill_body"@.len());
    }
    if str_eq(name, "read_private_skill_body") {
        *body_read = true;
        return SkillToolStep::ReadBody;
    }
    if str_eq(name, "write_private_skill_body") {
        if !*body_read {
            return SkillToolStep::Reply {
                text: owned("Error: Read the private skill body before writing it."),
            };
        }
        let content = match json_str_field(arguments, "content") {
            Some(c) => c,
            None => String::new(),
        };
        return SkillToolStep::WriteBody { content };
    }
    SkillToolStep::Reply { text: concat2("Error: Unknown tool ", name) }
}

/// The values put into the skill learning prompt template, in order.
pub open spec fn learning_pairs(
    source_scope: Seq<char>,
    skill_path: Seq<char>,
    skill_name: Seq<char>,
    skill_body_len: usize,
    user_message: Seq<char>,
    assistant_reply: Seq<char>,
) -> Seq<(Seq<char>, Seq<char>)> {
    seq![
        ("source_scope"@, source_scope),
        ("skill_path"@, skill_path),
        ("skill_name"@, skill_name),
        ("skill_body_len"@, decimal(skill_body_len as nat)),
        ("user_message"@, user_message),
        ("assistant_reply"@, assistant_reply),
    ]
}

pub fn render_private_skill_learning_prompt(
    template: &str,
    source_scope: &str,
    skill_path: &str,
    skill_name: &str,
    skill_body_len: usize,
    user_message: &str,
    assistant_reply: &str,
) -> (s: String)
    ensures
        s@ == rendered_template(
            template@,
            learning_pairs(
                source_scope@,
                skill_path@,
                skill_name@,
                skill_body_len,
                user_message@,
                assistant_reply@,
            ),
        ),
{
    let mut pairs: Vec<(&str, String)> = Vec::new();
    pairs.push(("source_scope", owned(source_scope)));
    pairs.push(("skill_path", owned(skill_path)));
    pairs.push(("skill_name", owned(skill_name)));
    pairs.push(("skill_body_len", usize_to_decimal(skill_body_len)));
    pairs.push(("user_message", owned(user_message)));
    pairs.push(("assistant_reply", owned(assistant_reply)));
    assert(pairs@.map_values(|p: (&str, String)| (p.0@, p.1@)) =~= learning_pairs(
        source_scope@,
        skill_path@,
        skill_name@,
        skill_body_len,
        user_message@,
        assistant_reply@,
    ));
    render_template(template, &pairs)
}

} // verus!

verus! {

/// The parameters of the skill learning tools, in order: name, schema text, whether required.
pub open spec fn skill_update_tool_parameters() -> Seq<Seq<(Seq<char>, Seq<char>, bool)>> {
    seq![
        Seq::empty(),
        seq![("content"@, r#"{"type":"string","description":"The complete new markdown body for this skill."}"#@, true)],
    ]
}

/// The tools of the private skill learning turn: read and replace the body of
/// the private SKILL.md.
pub fn private_skill_update_tools() -> (r: Vec<ToolSchema>)
    ensures
        schema_entries_of(r@) == seq![
            ("read_private_skill_body"@, "Read the current markdown body of the private SKILL.md before deciding whether to update it."@),
            ("write_private_skill_body"@, "Replace the markdown body of the private SKILL.md while preserving its frontmatter metadata."@),
        ],
        schema_parameters(r@) == skill_update_tool_parameters(),
{
    let mut r: Vec<ToolSchema> = Vec::new();
    r.push(tool_schema(
        "read_private_skill_body",
        "Read the current markdown body of the private SKILL.md before deciding whether to update it.",
        Vec::new(),
    ));
    r.push(tool_schema(
        "write_private_skill_body",
        "Replace the markdown body of the private SKILL.md while preserving its frontmatter metadata.",
        vec![tool_parameter(
            "content",
            r#"{"type":"string","description":"The complete new markdown body for this skill."}"#,
            true,
        )],
    ));
    assert(schema_parameters(r@) =~~= skill_update_tool_parameters());
    assert(schema_entries_of(r@) =~= seq![
        ("read_private_skill_body"@, "Read the current markdown body of the private SKILL.md before deciding whether to update it."@),
        ("write_private_skill_body"@, "Replace the markdown body of the private SKILL.md while preserving its frontmatter metadata."@),
    ]);
    r
}

} // verus!
