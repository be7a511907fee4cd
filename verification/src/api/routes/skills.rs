use vstd::prelude::*;

use crate::api::dto::skills::{SkillEvolutionStatusResponse, SkillsQuery};
use crate::api::errors::ApiError;
use crate::digest::{sha1_hex, sha1_hex_of};
use crate::domain::chat::models::SkillPermissions;
use crate::domain::clock::unix_time_millis;
use crate::domain::skills::models::{SkillDocument, SkillScope};
use crate::json::{json_string_list, opt_view, parse_json_string_list};
use crate::lists::{norm_list, normalize_list, texts};
use crate::order::{entries_map, entry_value, keys_ascending, pair_views, sorted_entries};
use crate::text::{
    concat2, decimal, is_empty_text, owned, str_eq, trim, trim_seq, u64_to_decimal,
};

verus! {

// ---------------------------------------------------------------------------
// Lists of skill names in a query
// ---------------------------------------------------------------------------

pub open spec fn string_list_error(label: Seq<char>) -> Seq<char> {
    label + " 必须是字符串数组 JSON"@
}

/// A query parameter holding a JSON array of names: nothing when missing or
/// blank; otherwise the names trimmed, blank ones and repeats dropped; a text
/// that is no array of strings is refused.
pub open spec fn string_list_result(raw: Option<Seq<char>>, label: Seq<char>) -> Result<
    Seq<Seq<char>>,
    Seq<char>,
> {
    let t = match raw {
        Some(r) => trim_seq(r),
        None => Seq::empty(),
    };
    if t.len() == 0 {
        Ok(Seq::empty())
    } else {
        match json_string_list(t) {
            Some(items) => Ok(norm_list(items)),
            None => Err(string_list_error(label)),
        }
    }
}

pub fn parse_string_list(raw: Option<&str>, label: &str) -> (r: Result<Vec<String>, ApiError>)
    ensures
        match r {
            Ok(v) => string_list_result(
                match raw {
                    Some(s) => Some(s@),
                    None => None,
                },
                label@,
            ) == Ok::<Seq<Seq<char>>, Seq<char>>(texts(v@)),
            Err(e) => e matches ApiError::BadRequest(m) && string_list_result(
                match raw {
                    Some(s) => Some(s@),
                    None => None,
                },
                label@,
            ) == Err::<Seq<Seq<char>>, Seq<char>>(m@),
        },
{
    let t = match raw {
        Some(s) => trim(s),
        None => String::new(),
    };
    if is_empty_text(t.as_str()) {
        let v: Vec<String> = Vec::new();
        assert(texts(v@) =~= Seq::<Seq<char>>::empty());
        return Ok(v);
    }
    match parse_json_string_list(t.as_str()) {
        Some(items) => Ok(normalize_list(&items)),
        None => Err(ApiError::bad_request(concat2(label, " 必须是字符串数组 JSON"))),
    }
}

/// The skill permissions of a query: the allowed and the denied names.
pub fn parse_skill_permissions(query: &SkillsQuery) -> (r: Result<SkillPermissions, ApiError>)
    ensures
        match r {
            Ok(p) => string_list_result(
                match query.allowed_skills {
                    Some(s) => Some(s@),
                    None => None,
                },
                "allowed_skills"@,
            ) == Ok::<Seq<Seq<char>>, Seq<char>>(texts(p.allowed_skills@)) && string_list_result(
                match query.denied_skills {
                    Some(s) => Some(s@),
                    None => None,
                },
                "denied_skills"@,
            ) == Ok::<Seq<Seq<char>>, Seq<char>>(texts(p.denied_skills@)),
            Err(e) => e matches ApiError::BadRequest(m) && (string_list_result(
                match query.allowed_skills {
                    Some(s) => Some(s@),
                    None => None,
                },
                "allowed_skills"@,
            ) == Err::<Seq<Seq<char>>, Seq<char>>(m@) || (string_list_result(
                match query.allowed_skills {
                    Some(s) => Some(s@),
                    None => None,
                },
                "allowed_skills"@,
            ) is Ok && string_list_result(
                match query.denied_skills {
                    Some(s) => Some(s@),
                    None => None,
                },
                "denied_skills"@,
            ) == Err::<Seq<Seq<char>>, Seq<char>>(m@))),
        },
{
    let allowed = match &query.allowed_skills {
        Some(s) => parse_string_list(Some(s.as_str()), "allowed_skills"),
        None => parse_string_list(None, "allowed_skills"),
    };
    let allowed_skills = match allowed {
        Ok(v) => v,
        Err(e) => {
            return Err(e);
        },
    };
    let denied = match &query.denied_skills {
        Some(s) => parse_string_list(Some(s.as_str()), "denied_skills"),
        None => parse_string_list(None, "denied_skills"),
    };
    let denied_skills = match denied {
        Ok(v) => v,
        Err(e) => {
            return Err(e);
        },
    };
    Ok(SkillPermissions { allowed_skills, denied_skills })
}

// ---------------------------------------------------------------------------
// A user's private copy of a shared skill
// ---------------------------------------------------------------------------

/// The hash that tells skill bodies apart: the SHA-1 of the trimmed body.
pub open spec fn body_hash(body: Seq<char>) -> Seq<char> {
    sha1_hex_of(trim_seq(body))
}

pub fn skill_body_hash(body: &str) -> (h: String)
    ensures
        h@ == body_hash(body@),
{
    sha1_hex(trim(body).as_str())
}

/// Seconds since the Unix epoch.
pub fn now_unix_seconds() -> u64 {
    let secs = unix_time_millis() / 1000;
    if secs > u64::MAX as u128 {
        u64::MAX
    } else {
        secs as u64
    }
}

pub open spec fn meta_of(d: SkillDocument) -> Map<Seq<char>, Seq<char>> {
    entries_map(pair_views(d.meta@))
}

/// The metadata a private copy gets from the shared skill when it is reset or
/// merged: the shared metadata with the baseline hash, the action, its time
/// and (when not blank) its note.
pub open spec fn evolution_entries(
    shared_meta: Seq<(Seq<char>, Seq<char>)>,
    shared_body: Seq<char>,
    action: Seq<char>,
    note: Option<Seq<char>>,
    now_secs: u64,
) -> Seq<(Seq<char>, Seq<char>)> {
    let base = shared_meta + seq![
        ("coassist_baseline_hash"@, body_hash(shared_body)),
        ("coassist_last_action"@, action),
        ("coassist_action_at"@, decimal(now_secs as nat)),
    ];
    match note {
        Some(n) => if trim_seq(n).len() > 0 {
            base.push(("coassist_action_note"@, trim_seq(n)))
        } else {
            base
        },
        None => base,
    }
}

/// The metadata as a map in key order.
pub fn evolution_meta(shared: &SkillDocument, action: &str, note: Option<&str>, now_secs: u64) -> (r:
    Vec<(String, String)>)
    ensures
        keys_ascending(pair_views(r@)),
        entries_map(pair_views(r@)) == entries_map(
            evolution_entries(
                pair_views(shared.meta@),
                shared.body@,
                action@,
                match note {
                    Some(n) => Some(n@),
                    None => None,
                },
                now_secs,
            ),
        ),
{
    let mut es: Vec<(String, String)> = Vec::new();
    let mut i: usize = 0;
    while i < shared.meta.len()
        invariant
            0 <= i <= shared.meta.len(),
            pair_views(es@) == pair_views(shared.meta@).take(i as int),
        decreases shared.meta.len() - i,
    {
        let e = (owned(shared.meta[i].0.as_str()), owned(shared.meta[i].1.as_str()));
        let ghost before = es@;
        es.push(e);
        assert(pair_views(es@) =~= pair_views(shared.meta@).take(i + 1)) by {
            assert(pair_views(es@) =~= pair_views(before).push((e.0@, e.1@)));
        }
        i += 1;
    }
    assert(pair_views(shared.meta@).take(shared.meta.len() as int) =~= pair_views(shared.meta@));
    let ghost before = es@;
    es.push((owned("coassist_baseline_hash"), skill_body_hash(shared.body.as_str())));
    es.push((owned("coassist_last_action"), owned(action)));
    es.push((owned("coassist_action_at"), u64_to_decimal(now_secs)));
    let ghost base = pair_views(es@);
    match note {
        Some(n) => {
            let t = trim(n);
            if !is_empty_text(t.as_str()) {
                es.push((owned("coassist_action_note"), t));
            }
        },
        None => {},
    }
    let ghost want = evolution_entries(
        pair_views(shared.meta@),
        shared.body@,
        action@,
        match note {
            Some(n) => Some(n@),
            None => None,
        },
        now_secs,
    );
    assert(pair_views(es@) =~= want);
    sorted_entries(&es)
}

/// What is recommended for a user's copy of a skill.
pub open spec fn recommendation_text(has_private: bool, baseline_changed: bool) -> Seq<char> {
    if !has_private {
        "baseline_only"@
    } else if baseline_changed {
        "needs_merge_or_reset"@
    } else {
        "private_aligned"@
    }
}

pub open spec fn hash_of(d: Option<SkillDocument>) -> Option<Seq<char>> {
    match d {
        Some(s) => Some(body_hash(s.body@)),
        None => None,
    }
}

/// The baseline hash that a private copy recorded when it was made.
pub open spec fn forked_hash(private: Option<SkillDocument>) -> Option<Seq<char>> {
    match private {
        Some(p) => if meta_of(p).dom().contains("coassist_baseline_hash"@) {
            Some(meta_of(p)["coassist_baseline_hash"@])
        } else {
            None
        },
        None => None,
    }
}

fn hash_opt(d: &Option<SkillDocument>) -> (h: Option<String>)
    ensures
        opt_view(h) == hash_of(*d),
{
    match d {
        Some(s) => Some(skill_body_hash(s.body.as_str())),
        None => None,
    }
}

fn opt_eq(a: &Option<String>, b: &Option<String>) -> (r: bool)
    ensures
        r == (opt_view(*a) == opt_view(*b)),
{
    match (a, b) {
        (Some(x), Some(y)) => str_eq(x.as_str(), y.as_str()),
        (None, None) => true,
        _ => false,
    }
}

/// How a user's private copy of a skill stands against the shared skill,
/// given the shared skill, the private copy and the skill in effect for the
/// user, as far as each exists. A blank user id and a skill that is neither
/// shared nor private are refused.
pub fn build_skill_evolution_status(
    skill_name: &str,
    user_id: &str,
    shared: Option<SkillDocument>,
    private: Option<SkillDocument>,
    effective: Option<SkillDocument>,
) -> (r: Result<SkillEvolutionStatusResponse, ApiError>)
    ensures
        trim_seq(user_id@).len() == 0 ==> (r matches Err(ApiError::BadRequest(m)) && m@
            == "user_id 不能为空"@),
        trim_seq(user_id@).len() > 0 && shared is None && private is None ==> (r matches Err(
            ApiError::BadRequest(m),
        ) && m@ == "Skill 不存在: "@ + skill_name@),
        trim_seq(user_id@).len() > 0 && (shared is Some || private is Some) ==> (r matches Ok(s)
            && {
            let changed = private is Some && hash_of(shared) is Some && forked_hash(private)
                != hash_of(shared);
            &&& s.name@ == skill_name@
            &&& s.user_id@ == trim_seq(user_id@)
            &&& s.has_private == private is Some
            &&& s.baseline_changed == changed
            &&& s.effective_scope == match effective {
                Some(e) => e.scope,
                None => SkillScope::Shared,
            }
            &&& opt_view(s.shared_hash) == hash_of(shared)
            &&& opt_view(s.private_hash) == hash_of(private)
            &&& opt_view(s.effective_hash) == hash_of(effective)
            &&& opt_view(s.baseline_hash_when_forked) == forked_hash(private)
            &&& s.recommendation@ == recommendation_text(private is Some, changed)
            &&& s.shared == shared
            &&& s.private == private
            &&& s.effective == effective
        }),
{
    let user = trim(user_id);
    if is_empty_text(user.as_str()) {
        return Err(ApiError::bad_request(owned("user_id 不能为空")));
    }
    if shared.is_none() && private.is_none() {
        return Err(ApiError::bad_request(concat2("Skill 不存在: ", skill_name)));
    }
    let shared_hash = hash_opt(&shared);
    let private_hash = hash_opt(&private);
    let effective_hash = hash_opt(&effective);
    let baseline_hash_when_forked = match &private {
        Some(p) => entry_value(&p.meta, "coassist_baseline_hash"),
        None => None,
    };
    let has_private = private.is_some();
    let baseline_changed = has_private && shared_hash.is_some() && !opt_eq(
        &baseline_hash_when_forked,
        &shared_hash,
    );
    let effective_scope = match &effective {
        Some(e) => e.scope,
        None => SkillScope::Shared,
    };
    let recommendation = if !has_private {
        owned("baseline_only")
    } else if baseline_changed {
        owned("needs_merge_or_reset")
    } else {
        owned("private_aligned")
    };
    Ok(SkillEvolutionStatusResponse {
        name: owned(skill_name),
        user_id: user,
        has_private,
        baseline_changed,
        effective_scope,
        shared_hash,
        private_hash,
        effective_hash,
        baseline_hash_when_forked,
        recommendation,
        shared,
        private,
        effective,
    })
}

/// The body that a merge writes to the private copy: the given body trimmed
/// when it is not blank, else the private copy's body.
pub fn merged_body(body: Option<&str>, private_body: &str) -> (r: String)
    ensures
        r@ == match body {
            Some(b) => if trim_seq(b@).len() > 0 {
                trim_seq(b@)
            } else {
                private_body@
            },
            None => private_body@,
        },
{
    match body {
        Some(b) => {
            let t = trim(b);
            if is_empty_text(t.as_str()) {
                owned(private_body)
            } else {
                t
            }
        },
        None => owned(private_body),
    }
}

} // verus!
