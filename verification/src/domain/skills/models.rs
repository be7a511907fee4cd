use vstd::prelude::*;

use crate::text::{concat2, is_empty_text, lower_seq, owned, str_eq, trim_lower, trim_seq};

verus! {

/// Which skills a listing or an edit addresses.
#[derive(Debug, Clone, Copy, PartialEq, Eq)]
pub enum SkillScope {
    Shared,
    Private,
    Effective,
}

/// The scope text, trimmed and lower-cased; an absent scope reads as blank.
pub open spec fn scope_text(scope: Option<&str>) -> Seq<char> {
    match scope {
        Some(s) => lower_seq(trim_seq(s@)),
        None => Seq::empty(),
    }
}

/// What `SkillScope::normalize` gives for a scope text.
pub open spec fn scope_outcome(value: Seq<char>, has_user: bool, allow_effective: bool) -> Result<
    SkillScope,
    Seq<char>,
> {
    if value.len() == 0 {
        Ok(
            if allow_effective && has_user {
                SkillScope::Effective
            } else {
                SkillScope::Shared
            },
        )
    } else if value == "shared"@ {
        Ok(SkillScope::Shared)
    } else if value == "private"@ {
        if !has_user {
            Err("私有 skill 需要提供 user_id"@)
        } else {
            Ok(SkillScope::Private)
        }
    } else if value == "effective"@ {
        if !allow_effective {
            Err("当前接口不支持 effective scope"@)
        } else if !has_user {
            Ok(SkillScope::Shared)
        } else {
            Ok(SkillScope::Effective)
        }
    } else {
        Err("不支持的 skill scope: "@ + value)
    }
}

impl SkillScope {
    pub open spec fn label(self) -> Seq<char> {
        match self {
            SkillScope::Shared => "shared"@,
            SkillScope::Private => "private"@,
            SkillScope::Effective => "effective"@,
        }
    }

    pub fn as_str(&self) -> (s: &'static str)
        ensures
            s@ == self.label(),
    {
        match self {
            SkillScope::Shared => "shared",
            SkillScope::Private => "private",
            SkillScope::Effective => "effective",
        }
    }

    /// Reads a requested scope: blank means the effective scope where it is
    /// allowed and a user is given, else the shared one; a private scope needs a
    /// user; an effective one without a user falls back to shared.
    pub fn normalize(scope: Option<&str>, user_id: Option<&str>, allow_effective: bool) -> (r:
        Result<Self, String>)
        ensures
            match r {
                Ok(s) => scope_outcome(scope_text(scope), user_id is Some, allow_effective) == Ok::<
                    SkillScope,
                    Seq<char>,
                >(s),
                Err(m) => scope_outcome(scope_text(scope), user_id is Some, allow_effective)
                    == Err::<SkillScope, Seq<char>>(m@),
            },
    {
        let value = match scope {
            Some(s) => trim_lower(s),
            None => String::new(),
        };
        if is_empty_text(value.as_str()) {
            return Ok(
                if allow_effective && user_id.is_some() {
                    SkillScope::Effective
                } else {
                    SkillScope::Shared
                },
            );
        }
        if str_eq(value.as_str(), "shared") {
            Ok(SkillScope::Shared)
        } else if str_eq(value.as_str(), "private") {
            if user_id.is_none() {
                Err(owned("私有 skill 需要提供 user_id"))
            } else {
                Ok(SkillScope::Private)
            }
        } else if str_eq(value.as_str(), "effective") {
            if !allow_effective {
                Err(owned("当前接口不支持 effective scope"))
            } else if user_id.is_none() {
                Ok(SkillScope::Shared)
            } else {
                Ok(SkillScope::Effective)
            }
        } else {
            Err(concat2("不支持的 skill scope: ", value.as_str()))
        }
    }
}

/// A skill as it is listed: its front matter fields, its body and where it lives.
/// `meta` holds the front matter entries ordered by key.
#[derive(Debug, Clone)]
pub struct SkillDocument {
    pub name: String,
    pub description: String,
    pub tags: String,
    pub trigger: String,
    pub folder: String,
    pub path: String,
    pub body: String,
    pub meta: Vec<(String, String)>,
    pub scope: SkillScope,
}

#[derive(Debug, Clone)]
pub struct SaveSkillInput {
    pub current_name: Option<String>,
    pub name: String,
    pub description: String,
    pub tags: String,
    pub trigger: String,
    pub body: String,
    pub folder: Option<String>,
    pub scope: SkillScope,
    pub user_id: Option<String>,
}

#[derive(Debug, Clone)]
pub struct DeleteSkillInput {
    pub name: String,
    pub scope: SkillScope,
    pub user_id: Option<String>,
}

#[derive(Debug, Clone)]
pub struct InstallHubSkillInput {
    pub identifier: String,
    pub source: Option<String>,
    pub name_override: Option<String>,
    pub category: Option<String>,
    pub force: bool,
}

/// `metadata` holds entries ordered by key.
#[derive(Debug, Clone)]
pub struct SkillHubInstallRecord {
    pub name: String,
    pub source: String,
    pub identifier: String,
    pub trust_level: String,
    pub scan_verdict: String,
    pub content_hash: String,
    pub install_path: String,
    pub files: Vec<String>,
    pub metadata: Vec<(String, String)>,
    pub installed_at: String,
    pub updated_at: String,
}

#[derive(Debug, Clone)]
pub struct InstallHubSkillResult {
    pub skill: SkillDocument,
    pub installation: SkillHubInstallRecord,
}

#[derive(Debug, Clone)]
pub struct UninstallHubSkillResult {
    pub deleted: SkillDocument,
    pub installation: SkillHubInstallRecord,
}

} // verus!
