use vstd::prelude::*;

use crate::lists::{
    contains_text, is_normal_list, lemma_norm_list_is_normal, lemma_norm_list_of_normal, norm_list,
    normalize_list, texts,
};
use crate::text::{is_empty_text, join_path, join_path_seq, lemma_trim_idempotent, owned, trim, trim_seq};

verus! {

/// Where the shared frontend settings are kept, relative to the repository.
pub const SHARED_FRONTEND_SETTINGS_PATH: &'static str = ".omx/state/frontend-settings.json";

pub const DEFAULT_BRAND_TITLE: &'static str = "中科院智能体平台";

pub const DEFAULT_BRAND_SUBTITLE: &'static str = "统一承载多模式智能体对话、技能管理与平台配置。";

/// The frontend settings shared by all users of a deployment.
#[derive(Debug, Clone, PartialEq, Eq)]
pub struct SharedFrontendSettings {
    pub brand_title: String,
    pub brand_subtitle: String,
    pub mcp_config_path: String,
    pub mcp_base_urls: String,
    pub mcp_disabled_urls: Vec<String>,
    pub mcp_lazy_urls: Vec<String>,
    pub mcp_user_permissions: Vec<UserMcpPermissions>,
    pub skill_user_permissions: Vec<UserSkillPermissions>,
    pub agent_prompt_override: String,
    pub agent_prompt_append: String,
    pub model_id: String,
    pub temperature: String,
    pub max_tokens: String,
    pub max_iterations: String,
    pub top_p: String,
    pub memory_maintenance_system_prompt: String,
    pub memory_maintenance_user_prompt: String,
    pub skill_learning_system_prompt: String,
    pub skill_learning_user_prompt: String,
}

/// Which MCP tools a user may and may not use.
#[derive(Debug, Clone, PartialEq, Eq, Default)]
pub struct UserMcpPermissions {
    pub user_id: String,
    pub allowed_tools: Vec<String>,
    pub denied_tools: Vec<String>,
}

/// Which skills a user may and may not use.
#[derive(Debug, Clone, PartialEq, Eq, Default)]
pub struct UserSkillPermissions {
    pub user_id: String,
    pub allowed_skills: Vec<String>,
    pub denied_skills: Vec<String>,
}

/// A permission entry as plain values: the user, the allowed and the denied
/// names.
pub type PermissionView = (Seq<char>, Seq<Seq<char>>, Seq<Seq<char>>);

pub open spec fn mcp_permission_view(p: UserMcpPermissions) -> PermissionView {
    (p.user_id@, texts(p.allowed_tools@), texts(p.denied_tools@))
}

pub open spec fn skill_permission_view(p: UserSkillPermissions) -> PermissionView {
    (p.user_id@, texts(p.allowed_skills@), texts(p.denied_skills@))
}

/// The settings as plain values.
pub struct SettingsView {
    pub brand_title: Seq<char>,
    pub brand_subtitle: Seq<char>,
    pub mcp_config_path: Seq<char>,
    pub mcp_base_urls: Seq<char>,
    pub mcp_disabled_urls: Seq<Seq<char>>,
    pub mcp_lazy_urls: Seq<Seq<char>>,
    pub mcp_user_permissions: Seq<PermissionView>,
    pub skill_user_permissions: Seq<PermissionView>,
    pub agent_prompt_override: Seq<char>,
    pub agent_prompt_append: Seq<char>,
    pub model_id: Seq<char>,
    pub temperature: Seq<char>,
    pub max_tokens: Seq<char>,
    pub max_iterations: Seq<char>,
    pub top_p: Seq<char>,
    pub memory_maintenance_system_prompt: Seq<char>,
    pub memory_maintenance_user_prompt: Seq<char>,
    pub skill_learning_system_prompt: Seq<char>,
    pub skill_learning_user_prompt: Seq<char>,
}

impl View for SharedFrontendSettings {
    type V = SettingsView;

    open spec fn view(&self) -> SettingsView {
        SettingsView {
            brand_title: self.brand_title@,
            brand_subtitle: self.brand_subtitle@,
            mcp_config_path: self.mcp_config_path@,
            mcp_base_urls: self.mcp_base_urls@,
            mcp_disabled_urls: texts(self.mcp_disabled_urls@),
            mcp_lazy_urls: texts(self.mcp_lazy_urls@),
            mcp_user_permissions: self.mcp_user_permissions@.map_values(
                |p: UserMcpPermissions| mcp_permission_view(p),
            ),
            skill_user_permissions: self.skill_user_permissions@.map_values(
                |p: UserSkillPermissions| skill_permission_view(p),
            ),
            agent_prompt_override: self.agent_prompt_override@,
            agent_prompt_append: self.agent_prompt_append@,
            model_id: self.model_id@,
            temperature: self.temperature@,
            max_tokens: self.max_tokens@,
            max_iterations: self.max_iterations@,
            top_p: self.top_p@,
            memory_maintenance_system_prompt: self.memory_maintenance_system_prompt@,
            memory_maintenance_user_prompt: self.memory_maintenance_user_prompt@,
            skill_learning_system_prompt: self.skill_learning_system_prompt@,
            skill_learning_user_prompt: self.skill_learning_user_prompt@,
        }
    }
}

impl Default for SharedFrontendSettings {
    fn default() -> (s: Self)
        ensures
            s@.brand_title == DEFAULT_BRAND_TITLE@,
            s@.brand_subtitle == DEFAULT_BRAND_SUBTITLE@,
            s@.mcp_config_path.len() == 0,
            s@.mcp_base_urls.len() == 0,
            s@.mcp_disabled_urls.len() == 0,
            s@.mcp_lazy_urls.len() == 0,
            s@.mcp_user_permissions.len() == 0,
            s@.skill_user_permissions.len() == 0,
            s@.agent_prompt_override.len() == 0,
            s@.agent_prompt_append.len() == 0,
            s@.model_id.len() == 0,
            s@.temperature.len() == 0,
            s@.max_tokens.len() == 0,
            s@.max_iterations.len() == 0,
            s@.top_p.len() == 0,
            s@.memory_maintenance_system_prompt.len() == 0,
            s@.memory_maintenance_user_prompt.len() == 0,
            s@.skill_learning_system_prompt.len() == 0,
            s@.skill_learning_user_prompt.len() == 0,
    {
        SharedFrontendSettings {
            brand_title: owned(DEFAULT_BRAND_TITLE),
            brand_subtitle: owned(DEFAULT_BRAND_SUBTITLE),
            mcp_config_path: String::new(),
            mcp_base_urls: String::new(),
            mcp_disabled_urls: Vec::new(),
            mcp_lazy_urls: Vec::new(),
            mcp_user_permissions: Vec::new(),
            skill_user_permissions: Vec::new(),
            agent_prompt_override: String::new(),
            agent_prompt_append: String::new(),
            model_id: String::new(),
            temperature: String::new(),
            max_tokens: String::new(),
            max_iterations: String::new(),
            top_p: String::new(),
            memory_maintenance_system_prompt: String::new(),
            memory_maintenance_user_prompt: String::new(),
            skill_learning_system_prompt: String::new(),
            skill_learning_user_prompt: String::new(),
        }
    }
}

/// The settings file of a repository.
pub fn shared_frontend_settings_path(repo_root: &str) -> (p: String)
    ensures
        p@ == join_path_seq(repo_root@, SHARED_FRONTEND_SETTINGS_PATH@),
{
    join_path(repo_root, SHARED_FRONTEND_SETTINGS_PATH)
}

/// The trimmed text, or the fallback when it is blank.
pub open spec fn non_empty_or(value: Seq<char>, fallback: Seq<char>) -> Seq<char> {
    if trim_seq(value).len() == 0 {
        fallback
    } else {
        trim_seq(value)
    }
}

fn normalize_non_empty(value: &str, fallback: &str) -> (r: String)
    ensures
        r@ == non_empty_or(value@, fallback@),
{
    let t = trim(value);
    if is_empty_text(t.as_str()) {
        owned(fallback)
    } else {
        t
    }
}

/// The entries of `xs` that are not in `ys`, in order.
pub open spec fn without(xs: Seq<Seq<char>>, ys: Seq<Seq<char>>) -> Seq<Seq<char>>
    decreases xs.len(),
{
    if xs.len() == 0 {
        Seq::empty()
    } else if ys.contains(xs.last()) {
        without(xs.drop_last(), ys)
    } else {
        without(xs.drop_last(), ys).push(xs.last())
    }
}

fn without_exec(xs: &Vec<String>, ys: &Vec<String>) -> (r: Vec<String>)
    ensures
        texts(r@) == without(texts(xs@), texts(ys@)),
{
    let mut r: Vec<String> = Vec::new();
    let mut i: usize = 0;
    while i < xs.len()
        invariant
            0 <= i <= xs.len(),
            texts(r@) == without(texts(xs@).take(i as int), texts(ys@)),
        decreases xs.len() - i,
    {
        let ghost pre = texts(xs@).take(i + 1);
        assert(pre.drop_last() =~= texts(xs@).take(i as int));
        assert(pre.last() == xs@[i as int]@);
        if !contains_text(ys, xs[i].as_str()) {
            let ghost before = texts(r@);
            r.push(owned(xs[i].as_str()));
            assert(texts(r@) =~= before.push(xs@[i as int]@));
        }
        i += 1;
    }
    assert(texts(xs@).take(xs.len() as int) =~= texts(xs@));
    r
}

/// A permission entry as it is kept: the user trimmed and the lists
/// normalized; `None` when the user is blank or both lists end up empty.
pub open spec fn normalized_permission(p: PermissionView) -> Option<PermissionView> {
    let user = trim_seq(p.0);
    let allowed = norm_list(p.1);
    let denied = norm_list(p.2);
    if user.len() == 0 || (allowed.len() == 0 && denied.len() == 0) {
        None
    } else {
        Some((user, allowed, denied))
    }
}

/// The permission entries that are kept, each normalized, in order.
pub open spec fn normalized_permissions(ps: Seq<PermissionView>) -> Seq<PermissionView>
    decreases ps.len(),
{
    if ps.len() == 0 {
        Seq::empty()
    } else {
        match normalized_permission(ps.last()) {
            Some(p) => normalized_permissions(ps.drop_last()).push(p),
            None => normalized_permissions(ps.drop_last()),
        }
    }
}

fn normalize_mcp_permissions(values: &Vec<UserMcpPermissions>) -> (r: Vec<UserMcpPermissions>)
    ensures
        r@.map_values(|p: UserMcpPermissions| mcp_permission_view(p)) == normalized_permissions(
            values@.map_values(|p: UserMcpPermissions| mcp_permission_view(p)),
        ),
{
    let ghost vs = values@.map_values(|p: UserMcpPermissions| mcp_permission_view(p));
    let mut r: Vec<UserMcpPermissions> = Vec::new();
    let mut i: usize = 0;
    while i < values.len()
        invariant
            0 <= i <= values.len(),
            vs == values@.map_values(|p: UserMcpPermissions| mcp_permission_view(p)),
            r@.map_values(|p: UserMcpPermissions| mcp_permission_view(p)) == normalized_permissions(
                vs.take(i as int),
            ),
        decreases values.len() - i,
    {
        let ghost pre = vs.take(i + 1);
        assert(pre.drop_last() =~= vs.take(i as int));
        assert(pre.last() == mcp_permission_view(values@[i as int]));
        let v = &values[i];
        let user = trim(v.user_id.as_str());
        let allowed = normalize_list(&v.allowed_tools);
        let denied = normalize_list(&v.denied_tools);
        if !(is_empty_text(user.as_str()) || (allowed.len() == 0 && denied.len() == 0)) {
            let ghost before = r@.map_values(|p: UserMcpPermissions| mcp_permission_view(p));
            let p = UserMcpPermissions { user_id: user, allowed_tools: allowed, denied_tools: denied };
            let ghost pv = mcp_permission_view(p);
            r.push(p);
            assert(r@.map_values(|p: UserMcpPermissions| mcp_permission_view(p)) =~= before.push(pv));
        }
        i += 1;
    }
    assert(vs.take(values.len() as int) =~= vs);
    r
}

fn normalize_skill_permissions(values: &Vec<UserSkillPermissions>) -> (r: Vec<
    UserSkillPermissions,
>)
    ensures
        r@.map_values(|p: UserSkillPermissions| skill_permission_view(p))
            == normalized_permissions(
            values@.map_values(|p: UserSkillPermissions| skill_permission_view(p)),
        ),
{
    let ghost vs = values@.map_values(|p: UserSkillPermissions| skill_permission_view(p));
    let mut r: Vec<UserSkillPermissions> = Vec::new();
    let mut i: usize = 0;
    while i < values.len()
        invariant
            0 <= i <= values.len(),
            vs == values@.map_values(|p: UserSkillPermissions| skill_permission_view(p)),
            r@.map_values(|p: UserSkillPermissions| skill_permission_view(p))
                == normalized_permissions(vs.take(i as int)),
        decreases values.len() - i,
    {
        let ghost pre = vs.take(i + 1);
        assert(pre.drop_last() =~= vs.take(i as int));
        assert(pre.last() == skill_permission_view(values@[i as int]));
        let v = &values[i];
        let user = trim(v.user_id.as_str());
        let allowed = normalize_list(&v.allowed_skills);
        let denied = normalize_list(&v.denied_skills);
        if !(is_empty_text(user.as_str()) || (allowed.len() == 0 && denied.len() == 0)) {
            let ghost before = r@.map_values(|p: UserSkillPermissions| skill_permission_view(p));
            let p = UserSkillPermissions {
                user_id: user,
                allowed_skills: allowed,
                denied_skills: denied,
            };
            let ghost pv = skill_permission_view(p);
            r.push(p);
            assert(r@.map_values(|p: UserSkillPermissions| skill_permission_view(p)) =~= before.push(
                pv,
            ));
        }
        i += 1;
    }
    assert(vs.take(values.len() as int) =~= vs);
    r
}

/// The settings as they are kept: texts trimmed, the brand texts falling back
/// to the defaults when blank, the URL lists normalized, the lazy URLs
/// without the disabled ones, and the permission entries normalized.
pub open spec fn normalize_settings(v: SettingsView) -> SettingsView {
    SettingsView {
        brand_title: non_empty_or(v.brand_title, DEFAULT_BRAND_TITLE@),
        brand_subtitle: non_empty_or(v.brand_subtitle, DEFAULT_BRAND_SUBTITLE@),
        mcp_config_path: trim_seq(v.mcp_config_path),
        mcp_base_urls: trim_seq(v.mcp_base_urls),
        mcp_disabled_urls: norm_list(v.mcp_disabled_urls),
        mcp_lazy_urls: without(norm_list(v.mcp_lazy_urls), norm_list(v.mcp_disabled_urls)),
        mcp_user_permissions: normalized_permissions(v.mcp_user_permissions),
        skill_user_permissions: normalized_permissions(v.skill_user_permissions),
        agent_prompt_override: trim_seq(v.agent_prompt_override),
        agent_prompt_append: trim_seq(v.agent_prompt_append),
        model_id: trim_seq(v.model_id),
        temperature: trim_seq(v.temperature),
        max_tokens: trim_seq(v.max_tokens),
        max_iterations: trim_seq(v.max_iterations),
        top_p: trim_seq(v.top_p),
        memory_maintenance_system_prompt: trim_seq(v.memory_maintenance_system_prompt),
        memory_maintenance_user_prompt: trim_seq(v.memory_maintenance_user_prompt),
        skill_learning_system_prompt: trim_seq(v.skill_learning_system_prompt),
        skill_learning_user_prompt: trim_seq(v.skill_learning_user_prompt),
    }
}

impl SharedFrontendSettings {
    /// The settings as they are kept, as `normalize_settings` states.
    pub fn normalized(&self) -> (s: Self)
        ensures
            s@ == normalize_settings(self@),
    {
        let disabled = normalize_list(&self.mcp_disabled_urls);
        let lazy = normalize_list(&self.mcp_lazy_urls);
        let lazy = without_exec(&lazy, &disabled);
        SharedFrontendSettings {
            brand_title: normalize_non_empty(self.brand_title.as_str(), DEFAULT_BRAND_TITLE),
            brand_subtitle: normalize_non_empty(
                self.brand_subtitle.as_str(),
                DEFAULT_BRAND_SUBTITLE,
            ),
            mcp_config_path: trim(self.mcp_config_path.as_str()),
            mcp_base_urls: trim(self.mcp_base_urls.as_str()),
            mcp_disabled_urls: disabled,
            mcp_lazy_urls: lazy,
            mcp_user_permissions: normalize_mcp_permissions(&self.mcp_user_permissions),
            skill_user_permissions: normalize_skill_permissions(&self.skill_user_permissions),
            agent_prompt_override: trim(self.agent_prompt_override.as_str()),
            agent_prompt_append: trim(self.agent_prompt_append.as_str()),
            model_id: trim(self.model_id.as_str()),
            temperature: trim(self.temperature.as_str()),
            max_tokens: trim(self.max_tokens.as_str()),
            max_iterations: trim(self.max_iterations.as_str()),
            top_p: trim(self.top_p.as_str()),
            memory_maintenance_system_prompt: trim(self.memory_maintenance_system_prompt.as_str()),
            memory_maintenance_user_prompt: trim(self.memory_maintenance_user_prompt.as_str()),
            skill_learning_system_prompt: trim(self.skill_learning_system_prompt.as_str()),
            skill_learning_user_prompt: trim(self.skill_learning_user_prompt.as_str()),
        }
    }
}

proof fn lemma_without_members(xs: Seq<Seq<char>>, ys: Seq<Seq<char>>, x: Seq<char>)
    ensures
        without(xs, ys).contains(x) <==> (xs.contains(x) && !ys.contains(x)),
    decreases xs.len(),
{
    if xs.len() > 0 {
        lemma_without_members(xs.drop_last(), ys, x);
        let p = without(xs.drop_last(), ys);
        if xs.contains(x) && !ys.contains(x) && x != xs.last() {
            let k = choose|k: int| 0 <= k < xs.len() && xs[k] == x;
            assert(xs.drop_last()[k] == x);
        }
        if xs.drop_last().contains(x) {
            let k = choose|k: int| 0 <= k < xs.drop_last().len() && xs.drop_last()[k] == x;
            assert(xs[k] == x);
        }
        if !ys.contains(xs.last()) {
            if p.push(xs.last()).contains(x) && x != xs.last() {
                let k = choose|k: int| 0 <= k < p.push(xs.last()).len() && p.push(xs.last())[k] == x;
                assert(p[k] == x);
            }
            if p.contains(x) {
                let k = choose|k: int| 0 <= k < p.len() && p[k] == x;
                assert(p.push(xs.last())[k] == x);
            }
            assert(p.push(xs.last())[p.len() as int] == xs.last());
        }
        assert(xs[xs.len() - 1] == xs.last());
    }
}

proof fn lemma_without_of_disjoint(xs: Seq<Seq<char>>, ys: Seq<Seq<char>>)
    requires
        forall|i: int| 0 <= i < xs.len() ==> !ys.contains(#[trigger] xs[i]),
    ensures
        without(xs, ys) == xs,
    decreases xs.len(),
{
    if xs.len() > 0 {
        assert forall|i: int| 0 <= i < xs.drop_last().len() implies !ys.contains(
            #[trigger] xs.drop_last()[i],
        ) by {
            assert(xs.drop_last()[i] == xs[i]);
        }
        lemma_without_of_disjoint(xs.drop_last(), ys);
        assert(!ys.contains(xs[xs.len() - 1]));
        assert(xs.drop_last().push(xs.last()) =~= xs);
    }
}

proof fn lemma_without_normal(xs: Seq<Seq<char>>, ys: Seq<Seq<char>>)
    requires
        is_normal_list(xs),
    ensures
        is_normal_list(without(xs, ys)),
    decreases xs.len(),
{
    if xs.len() > 0 {
        let d = xs.drop_last();
        assert(is_normal_list(d)) by {
            assert forall|i: int| 0 <= i < d.len() implies #[trigger] trim_seq(d[i]) == d[i] by {
                assert(d[i] == xs[i]);
            }
            assert forall|i: int| 0 <= i < d.len() implies (#[trigger] d[i]).len() > 0 by {
                assert(d[i] == xs[i]);
            }
        }
        lemma_without_normal(d, ys);
        let p = without(d, ys);
        if !ys.contains(xs.last()) {
            let r = p.push(xs.last());
            lemma_without_members(d, ys, xs.last());
            assert(!d.contains(xs.last())) by {
                if d.contains(xs.last()) {
                    let k = choose|k: int| 0 <= k < d.len() && d[k] == xs.last();
                    assert(xs[k] == xs[xs.len() - 1]);
                }
            }
            assert(trim_seq(xs[xs.len() - 1]) == xs[xs.len() - 1]);
            assert(xs[xs.len() - 1].len() > 0);
            assert forall|i: int, j: int| 0 <= i < r.len() && 0 <= j < r.len() && i != j implies r[i]
                != r[j] by {
                if i == r.len() - 1 {
                    assert(p[j] == r[j]);
                    assert(p.contains(p[j]));
                } else if j == r.len() - 1 {
                    assert(p[i] == r[i]);
                    assert(p.contains(p[i]));
                } else {
                    assert(p[i] == r[i] && p[j] == r[j]);
                }
            }
            assert forall|i: int| 0 <= i < r.len() implies #[trigger] trim_seq(r[i]) == r[i] by {
                if i < p.len() {
                    assert(r[i] == p[i]);
                }
            }
            assert forall|i: int| 0 <= i < r.len() implies (#[trigger] r[i]).len() > 0 by {
                if i < p.len() {
                    assert(r[i] == p[i]);
                }
            }
        }
    }
}

proof fn lemma_permissions_idempotent(ps: Seq<PermissionView>)
    ensures
        normalized_permissions(normalized_permissions(ps)) == normalized_permissions(ps),
        forall|i: int|
            0 <= i < normalized_permissions(ps).len() ==> normalized_permission(
                #[trigger] normalized_permissions(ps)[i],
            ) == Some(normalized_permissions(ps)[i]),
    decreases ps.len(),
{
    if ps.len() > 0 {
        lemma_permissions_idempotent(ps.drop_last());
        let prev = normalized_permissions(ps.drop_last());
        match normalized_permission(ps.last()) {
            Some(p) => {
                lemma_trim_idempotent(ps.last().0);
                lemma_norm_list_is_normal(ps.last().1);
                lemma_norm_list_is_normal(ps.last().2);
                lemma_norm_list_of_normal(norm_list(ps.last().1));
                lemma_norm_list_of_normal(norm_list(ps.last().2));
                assert(normalized_permission(p) == Some(p));
                let r = prev.push(p);
                assert(r.drop_last() =~= prev);
                assert forall|i: int| 0 <= i < r.len() implies normalized_permission(#[trigger] r[i])
                    == Some(r[i]) by {
                    if i < prev.len() {
                        assert(r[i] == prev[i]);
                    }
                }
                lemma_permissions_fixed(r);
            },
            None => {},
        }
    }
}

proof fn lemma_permissions_fixed(ps: Seq<PermissionView>)
    requires
        forall|i: int| 0 <= i < ps.len() ==> normalized_permission(#[trigger] ps[i]) == Some(ps[i]),
    ensures
        normalized_permissions(ps) == ps,
    decreases ps.len(),
{
    if ps.len() > 0 {
        let d = ps.drop_last();
        assert forall|i: int| 0 <= i < d.len() implies normalized_permission(#[trigger] d[i]) == Some(
            d[i],
        ) by {
            assert(d[i] == ps[i]);
        }
        lemma_permissions_fixed(d);
        assert(normalized_permission(ps[ps.len() - 1]) == Some(ps[ps.len() - 1]));
        assert(d.push(ps.last()) =~= ps);
    }
}

proof fn lemma_non_empty_or_idempotent(v: Seq<char>, fallback: Seq<char>)
    requires
        trim_seq(fallback) == fallback,
        fallback.len() > 0,
    ensures
        non_empty_or(non_empty_or(v, fallback), fallback) == non_empty_or(v, fallback),
{
    lemma_trim_idempotent(v);
}

/// Normalizing settings twice gives what normalizing them once gives.
pub proof fn lemma_normalize_settings_idempotent(v: SettingsView)
    ensures
        normalize_settings(normalize_settings(v)) == normalize_settings(v),
{
    let n = normalize_settings(v);
    reveal_strlit("中科院智能体平台");
    reveal_strlit("统一承载多模式智能体对话、技能管理与平台配置。");
    assert(trim_seq(DEFAULT_BRAND_TITLE@) == DEFAULT_BRAND_TITLE@) by {
        assert(trim_seq(DEFAULT_BRAND_TITLE@) =~= DEFAULT_BRAND_TITLE@);
    }
    assert(trim_seq(DEFAULT_BRAND_SUBTITLE@) == DEFAULT_BRAND_SUBTITLE@) by {
        assert(trim_seq(DEFAULT_BRAND_SUBTITLE@) =~= DEFAULT_BRAND_SUBTITLE@);
    }
    lemma_non_empty_or_idempotent(v.brand_title, DEFAULT_BRAND_TITLE@);
    lemma_non_empty_or_idempotent(v.brand_subtitle, DEFAULT_BRAND_SUBTITLE@);
    lemma_trim_idempotent(v.mcp_config_path);
    lemma_trim_idempotent(v.mcp_base_urls);
    lemma_trim_idempotent(v.agent_prompt_override);
    lemma_trim_idempotent(v.agent_prompt_append);
    lemma_trim_idempotent(v.model_id);
    lemma_trim_idempotent(v.temperature);
    lemma_trim_idempotent(v.max_tokens);
    lemma_trim_idempotent(v.max_iterations);
    lemma_trim_idempotent(v.top_p);
    lemma_trim_idempotent(v.memory_maintenance_system_prompt);
    lemma_trim_idempotent(v.memory_maintenance_user_prompt);
    lemma_trim_idempotent(v.skill_learning_system_prompt);
    lemma_trim_idempotent(v.skill_learning_user_prompt);
    let disabled = norm_list(v.mcp_disabled_urls);
    lemma_norm_list_is_normal(v.mcp_disabled_urls);
    lemma_norm_list_of_normal(disabled);
    let lazy = without(norm_list(v.mcp_lazy_urls), disabled);
    lemma_norm_list_is_normal(v.mcp_lazy_urls);
    lemma_without_normal(norm_list(v.mcp_lazy_urls), disabled);
    lemma_norm_list_of_normal(lazy);
    assert forall|i: int| 0 <= i < lazy.len() implies !disabled.contains(#[trigger] lazy[i]) by {
        lemma_without_members(norm_list(v.mcp_lazy_urls), disabled, lazy[i]);
        assert(lazy.contains(lazy[i]));
    }
    lemma_without_of_disjoint(lazy, disabled);
    lemma_permissions_idempotent(v.mcp_user_permissions);
    lemma_permissions_idempotent(v.skill_user_permissions);
    assert(normalize_settings(n) == n);
}

/// After normalizing, no URL is both lazy and disabled, and both lists are
/// trimmed, non-blank and without repeats.
pub proof fn lemma_lazy_urls_exclude_disabled(v: SettingsView)
    ensures
        forall|u: Seq<char>|
            #![trigger normalize_settings(v).mcp_lazy_urls.contains(u)]
            normalize_settings(v).mcp_lazy_urls.contains(u) ==> !normalize_settings(
                v,
            ).mcp_disabled_urls.contains(u),
        is_normal_list(normalize_settings(v).mcp_lazy_urls),
        is_normal_list(normalize_settings(v).mcp_disabled_urls),
{
    let disabled = norm_list(v.mcp_disabled_urls);
    lemma_norm_list_is_normal(v.mcp_disabled_urls);
    lemma_norm_list_is_normal(v.mcp_lazy_urls);
    lemma_without_normal(norm_list(v.mcp_lazy_urls), disabled);
    assert forall|u: Seq<char>| #![trigger normalize_settings(v).mcp_lazy_urls.contains(u)]
        normalize_settings(v).mcp_lazy_urls.contains(u) implies !normalize_settings(
        v,
    ).mcp_disabled_urls.contains(u) by {
        lemma_without_members(norm_list(v.mcp_lazy_urls), disabled, u);
    }
}

} // verus!
