use openfang_runtime::workspace_policy::{
    evaluate_freshness, format_workspace_policy_user_hint, impact_decision_balanced,
    impact_decision_strict, workspace_policy_view, ContextFreshness, ImpactDecision,
};

#[test]
fn workspace_policy_unknown_without_intel() {
    let v = workspace_policy_view(false);
    assert_eq!(v.context_freshness, ContextFreshness::Unknown);
    assert!(!v.repo_intelligence_ready);
    assert!(matches!(v.impact_decision_strict, ImpactDecision::RequireImpactFirst));
    assert!(format_workspace_policy_user_hint(&v).starts_with("AINL policy: context freshness is uncertain"));
}

#[test]
fn decisions_by_freshness() {
    assert_eq!(impact_decision_strict(ContextFreshness::Stale, false), ImpactDecision::BlockUntilFresh);
    assert_eq!(impact_decision_strict(ContextFreshness::Stale, true), ImpactDecision::RequireImpactFirst);
    assert_eq!(impact_decision_strict(ContextFreshness::Fresh, false), ImpactDecision::AllowExecute);
    assert_eq!(impact_decision_balanced(ContextFreshness::Stale, false), ImpactDecision::AllowExecute);
    assert_eq!(impact_decision_balanced(ContextFreshness::Unknown, true), ImpactDecision::RequireImpactFirst);
    assert_eq!(evaluate_freshness(false, Some(true)), ContextFreshness::Stale);
    assert_eq!(evaluate_freshness(true, Some(false)), ContextFreshness::Unknown);
    let ready = workspace_policy_view(true);
    assert!(format_workspace_policy_user_hint(&ready).starts_with("AINL policy: repo-intelligence MCP looks ready"));
}
