use vstd::prelude::*;

use crate::domain::hitl::models::HitlRiskLevel;
use crate::text::{has_prefix, is_empty_text, owned, starts_with, str_eq, trim, trim_seq};

verus! {

/// What happens to a tool call that no rule matches.
#[derive(Debug, Clone, Copy, PartialEq, Eq)]
pub enum HitlDefaultAction {
    Auto,
    RequireApproval,
    Reject,
}

impl Default for HitlDefaultAction {
    fn default() -> (r: Self)
        ensures
            r == HitlDefaultAction::Auto,
    {
        HitlDefaultAction::Auto
    }
}

/// One rule of a HITL policy: it matches a tool by exact name or by name prefix.
#[derive(Debug, Clone, PartialEq, Eq)]
pub struct HitlPolicyRule {
    pub tool: Option<String>,
    pub tool_prefix: Option<String>,
    pub display_name: Option<String>,
    pub require_approval: bool,
    pub risk_level: HitlRiskLevel,
}

impl Default for HitlPolicyRule {
    fn default() -> (r: Self)
        ensures
            r.tool is None,
            r.tool_prefix is None,
            r.display_name is None,
            !r.require_approval,
            r.risk_level == HitlRiskLevel::Medium,
    {
        HitlPolicyRule {
            tool: None,
            tool_prefix: None,
            display_name: None,
            require_approval: false,
            risk_level: HitlRiskLevel::Medium,
        }
    }
}

/// The outcome of checking a tool call against the policy.
#[derive(Debug, Clone, PartialEq, Eq)]
pub enum HitlPolicyDecision {
    Allow,
    Reject { reason: String },
    RequireApproval { risk_level: HitlRiskLevel, display_name: Option<String> },
}

/// A decision with its texts taken as character sequences.
pub enum HitlPolicyDecisionView {
    Allow,
    Reject { reason: Seq<char> },
    RequireApproval { risk_level: HitlRiskLevel, display_name: Option<Seq<char>> },
}

impl View for HitlPolicyDecision {
    type V = HitlPolicyDecisionView;

    open spec fn view(&self) -> HitlPolicyDecisionView {
        match self {
            HitlPolicyDecision::Allow => HitlPolicyDecisionView::Allow,
            HitlPolicyDecision::Reject { reason } => HitlPolicyDecisionView::Reject {
                reason: reason@,
            },
            HitlPolicyDecision::RequireApproval { risk_level, display_name } =>
                HitlPolicyDecisionView::RequireApproval {
                risk_level: *risk_level,
                display_name: match display_name {
                    Some(d) => Some(d@),
                    None => None,
                },
            },
        }
    }
}

/// An optional text, trimmed, with a blank one taken as absent.
pub open spec fn non_blank(value: Option<String>) -> Option<Seq<char>> {
    match value {
        Some(v) => if trim_seq(v@).len() > 0 {
            Some(trim_seq(v@))
        } else {
            None
        },
        None => None,
    }
}

/// Whether `rule` applies to the (already trimmed) tool name `tool`.
pub open spec fn rule_applies(rule: HitlPolicyRule, tool: Seq<char>) -> bool {
    (non_blank(rule.tool) matches Some(t) && t == tool) || (non_blank(rule.tool_prefix) matches Some(
        p,
    ) && has_prefix(tool, p))
}

/// The decision that a matching rule gives.
pub open spec fn rule_decision(rule: HitlPolicyRule) -> HitlPolicyDecisionView {
    if rule.require_approval {
        HitlPolicyDecisionView::RequireApproval {
            risk_level: rule.risk_level,
            display_name: non_blank(rule.display_name),
        }
    } else {
        HitlPolicyDecisionView::Allow
    }
}

pub open spec fn default_rejection_reason() -> Seq<char> {
    "HITL default action rejects unmatched tool calls"@
}

/// The decision for a tool call that no rule matches.
pub open spec fn default_decision(action: HitlDefaultAction) -> HitlPolicyDecisionView {
    match action {
        HitlDefaultAction::Auto => HitlPolicyDecisionView::Allow,
        HitlDefaultAction::RequireApproval => HitlPolicyDecisionView::RequireApproval {
            risk_level: HitlRiskLevel::Medium,
            display_name: None,
        },
        HitlDefaultAction::Reject => HitlPolicyDecisionView::Reject {
            reason: default_rejection_reason(),
        },
    }
}

/// `rules[k]` is the first rule that applies to `tool`.
pub open spec fn first_applicable(rules: Seq<HitlPolicyRule>, tool: Seq<char>, k: int) -> bool {
    0 <= k < rules.len() && rule_applies(rules[k], tool) && forall|j: int|
        0 <= j < k ==> !rule_applies(#[trigger] rules[j], tool)
}

pub open spec fn none_applicable(rules: Seq<HitlPolicyRule>, tool: Seq<char>) -> bool {
    forall|j: int| 0 <= j < rules.len() ==> !rule_applies(#[trigger] rules[j], tool)
}

/// The whole policy as a function of its inputs.
pub open spec fn policy_outcome(
    enabled: bool,
    action: HitlDefaultAction,
    rules: Seq<HitlPolicyRule>,
    tool_name: Seq<char>,
) -> HitlPolicyDecisionView {
    let tool = trim_seq(tool_name);
    if !enabled {
        HitlPolicyDecisionView::Allow
    } else if exists|k: int| first_applicable(rules, tool, k) {
        rule_decision(rules[choose|k: int| first_applicable(rules, tool, k)])
    } else {
        default_decision(action)
    }
}

fn non_blank_exec(value: &Option<String>) -> (r: Option<String>)
    ensures
        match r {
            Some(s) => non_blank(*value) == Some(s@),
            None => non_blank(*value) is None,
        },
{
    match value {
        Some(v) => {
            let t = trim(v.as_str());
            if is_empty_text(t.as_str()) {
                None
            } else {
                Some(t)
            }
        },
        None => None,
    }
}

/// Whether `rule` applies to the trimmed tool name `tool_name`.
pub fn rule_matches(rule: &HitlPolicyRule, tool_name: &str) -> (b: bool)
    ensures
        b == rule_applies(*rule, tool_name@),
        b <==> ((rule.tool matches Some(t) && trim_seq(t@).len() > 0 && trim_seq(t@) == tool_name@)
            || (rule.tool_prefix matches Some(p) && trim_seq(p@).len() > 0 && has_prefix(
            tool_name@,
            trim_seq(p@),
        ))),
{
    if let Some(tool) = non_blank_exec(&rule.tool) {
        if str_eq(tool.as_str(), tool_name) {
            return true;
        }
    }
    if let Some(prefix) = non_blank_exec(&rule.tool_prefix) {
        if starts_with(tool_name, prefix.as_str()) {
            return true;
        }
    }
    false
}

/// Decides whether a tool call runs, needs a human's approval, or is refused.
/// When the policy is off every call runs; otherwise the first rule that applies
/// to the trimmed tool name decides, and a call that no rule covers gets the
/// default action.
pub fn evaluate_tool_hitl_policy(
    enabled: bool,
    default_action: &HitlDefaultAction,
    rules: &[HitlPolicyRule],
    tool_name: &str,
) -> (r: HitlPolicyDecision)
    ensures
        r@ == policy_outcome(enabled, *default_action, rules@, tool_name@),
        !enabled ==> r@ == HitlPolicyDecisionView::Allow,
        enabled && none_applicable(rules@, trim_seq(tool_name@)) ==> r@ == default_decision(
            *default_action,
        ),
        forall|k: int|
            enabled && first_applicable(rules@, trim_seq(tool_name@), k) ==> r@ == rule_decision(
                #[trigger] rules@[k],
            ),
{
    let ghost tool = trim_seq(tool_name@);
    if !enabled {
        return HitlPolicyDecision::Allow;
    }
    let normalized = trim(tool_name);
    let mut i: usize = 0;
    while i < rules.len()
        invariant
            0 <= i <= rules.len(),
            enabled,
            normalized@ == tool,
            tool == trim_seq(tool_name@),
            forall|j: int| 0 <= j < i ==> !rule_applies(#[trigger] rules@[j], tool),
        decreases rules.len() - i,
    {
        let rule = &rules[i];
        if rule_matches(rule, normalized.as_str()) {
            proof {
                assert(first_applicable(rules@, tool, i as int));
                assert forall|k: int| first_applicable(rules@, tool, k) implies k == i by {
                    if k < i {
                        assert(!rule_applies(rules@[k], tool));
                    } else if k > i {
                        assert(!rule_applies(rules@[i as int], tool));
                    }
                }
            }
            if rule.require_approval {
                return HitlPolicyDecision::RequireApproval {
                    risk_level: rule.risk_level,
                    display_name: non_blank_exec(&rule.display_name),
                };
            } else {
                return HitlPolicyDecision::Allow;
            }
        }
        i += 1;
    }
    proof {
        assert(none_applicable(rules@, tool));
        assert(!exists|k: int| first_applicable(rules@, tool, k));
    }
    match default_action {
        HitlDefaultAction::Auto => HitlPolicyDecision::Allow,
        HitlDefaultAction::RequireApproval => HitlPolicyDecision::RequireApproval {
            risk_level: HitlRiskLevel::Medium,
            display_name: None,
        },
        HitlDefaultAction::Reject => HitlPolicyDecision::Reject {
            reason: owned("HITL default action rejects unmatched tool calls"),
        },
    }
}

/// A rule names its tool exactly or by a prefix: it applies to a trimmed
/// tool name exactly when its non-blank `tool` is that name, or its non-blank
/// `tool_prefix` begins the name. A rule with only a `tool` does not apply to
/// any other name, not even one that begins with it.
pub proof fn lemma_rule_applies_exactly(rule: HitlPolicyRule, tool: Seq<char>)
    ensures
        rule_applies(rule, tool) <==> ((rule.tool matches Some(t) && trim_seq(t@).len() > 0
            && trim_seq(t@) == tool) || (rule.tool_prefix matches Some(p) && trim_seq(p@).len() > 0
            && has_prefix(tool, trim_seq(p@)))),
        non_blank(rule.tool_prefix) is None && (rule.tool matches Some(t) && trim_seq(t@) != tool)
            ==> !rule_applies(rule, tool),
{
}

/// A call that no rule names, by its exact name or by a prefix of it, gets
/// the default action (or runs, when the policy is off).
pub proof fn lemma_unnamed_tool_gets_default(
    action: HitlDefaultAction,
    rules: Seq<HitlPolicyRule>,
    tool_name: Seq<char>,
)
    requires
        forall|j: int|
            0 <= j < rules.len() ==> !(#[trigger] rules[j].tool matches Some(t) && trim_seq(t@)
                == trim_seq(tool_name) && trim_seq(t@).len() > 0),
        forall|j: int|
            0 <= j < rules.len() ==> !(#[trigger] rules[j].tool_prefix matches Some(p) && trim_seq(
                p@,
            ).len() > 0 && has_prefix(trim_seq(tool_name), trim_seq(p@))),
    ensures
        policy_outcome(true, action, rules, tool_name) == default_decision(action),
        policy_outcome(false, action, rules, tool_name) == HitlPolicyDecisionView::Allow,
{
    let tool = trim_seq(tool_name);
    assert forall|j: int| 0 <= j < rules.len() implies !rule_applies(#[trigger] rules[j], tool) by {
        lemma_rule_applies_exactly(rules[j], tool);
    }
    if exists|k: int| first_applicable(rules, tool, k) {
        let k = choose|k: int| first_applicable(rules, tool, k);
        assert(!rule_applies(rules[k], tool));
    }
}

} // verus!
