use auto_claude::domain::hitl::models::HitlRiskLevel;
use auto_claude::domain::hitl::policy::{
    evaluate_tool_hitl_policy, HitlDefaultAction, HitlPolicyDecision, HitlPolicyRule,
};

#[test]
fn matching_rule_requires_approval() {
    let decision = evaluate_tool_hitl_policy(
        true,
        &HitlDefaultAction::Auto,
        &[HitlPolicyRule {
            tool: Some("write_file".to_string()),
            require_approval: true,
            risk_level: HitlRiskLevel::High,
            ..HitlPolicyRule::default()
        }],
        "write_file",
    );
    assert_eq!(
        decision,
        HitlPolicyDecision::RequireApproval {
            risk_level: HitlRiskLevel::High,
            display_name: None
        }
    );
}

#[test]
fn matching_rule_carries_display_name() {
    let decision = evaluate_tool_hitl_policy(
        true,
        &HitlDefaultAction::Auto,
        &[HitlPolicyRule {
            tool: Some("write_file".to_string()),
            display_name: Some("写入作战文档".to_string()),
            require_approval: true,
            risk_level: HitlRiskLevel::High,
            ..HitlPolicyRule::default()
        }],
        "write_file",
    );
    assert_eq!(
        decision,
        HitlPolicyDecision::RequireApproval {
            risk_level: HitlRiskLevel::High,
            display_name: Some("写入作战文档".to_string())
        }
    );
}

#[test]
fn disabled_policy_allows() {
    let decision = evaluate_tool_hitl_policy(
        false,
        &HitlDefaultAction::RequireApproval,
        &[],
        "write_file",
    );
    assert_eq!(decision, HitlPolicyDecision::Allow);
}

#[test]
fn prefix_rule_and_trimmed_tool_name_match() {
    let decision = evaluate_tool_hitl_policy(
        true,
        &HitlDefaultAction::Reject,
        &[HitlPolicyRule {
            tool_prefix: Some(" mcp_ ".to_string()),
            display_name: Some("   ".to_string()),
            require_approval: true,
            risk_level: HitlRiskLevel::Low,
            ..HitlPolicyRule::default()
        }],
        "  mcp_search ",
    );
    assert_eq!(
        decision,
        HitlPolicyDecision::RequireApproval {
            risk_level: HitlRiskLevel::Low,
            display_name: None
        }
    );
}

#[test]
fn first_matching_rule_wins_over_later_rules() {
    let rules = [
        HitlPolicyRule {
            tool: Some("write_file".to_string()),
            require_approval: false,
            ..HitlPolicyRule::default()
        },
        HitlPolicyRule {
            tool_prefix: Some("write".to_string()),
            require_approval: true,
            risk_level: HitlRiskLevel::High,
            ..HitlPolicyRule::default()
        },
    ];
    assert_eq!(
        evaluate_tool_hitl_policy(true, &HitlDefaultAction::Reject, &rules, "write_file"),
        HitlPolicyDecision::Allow
    );
    assert_eq!(
        evaluate_tool_hitl_policy(true, &HitlDefaultAction::Auto, &rules, "write_notes"),
        HitlPolicyDecision::RequireApproval {
            risk_level: HitlRiskLevel::High,
            display_name: None
        }
    );
}

#[test]
fn unmatched_tool_gets_default_action() {
    let rules = [HitlPolicyRule {
        tool: Some("write_file".to_string()),
        require_approval: true,
        ..HitlPolicyRule::default()
    }];
    assert_eq!(
        evaluate_tool_hitl_policy(true, &HitlDefaultAction::Auto, &rules, "read_file"),
        HitlPolicyDecision::Allow
    );
    assert_eq!(
        evaluate_tool_hitl_policy(true, &HitlDefaultAction::RequireApproval, &rules, "read_file"),
        HitlPolicyDecision::RequireApproval {
            risk_level: HitlRiskLevel::Medium,
            display_name: None
        }
    );
    assert_eq!(
        evaluate_tool_hitl_policy(true, &HitlDefaultAction::Reject, &rules, "read_file"),
        HitlPolicyDecision::Reject {
            reason: "HITL default action rejects unmatched tool calls".to_string()
        }
    );
}

#[test]
fn risk_level_labels() {
    assert_eq!(HitlRiskLevel::Low.as_str(), "low");
    assert_eq!(HitlRiskLevel::Medium.as_str(), "medium");
    assert_eq!(HitlRiskLevel::High.as_str(), "high");
}
