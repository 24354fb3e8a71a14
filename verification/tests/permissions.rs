use orion_agent_core::options::PermissionMode;
use orion_agent_core::permissions::{
    first_hook_decision, is_file_operation, tool_matches, PermissionDecision, PermissionEvaluator, PermissionVerdict,
    PreToolUseAnswer,
};

#[test]
fn test_tool_matches_exact() {
    assert!(tool_matches("Read", "Read"));
    assert!(!tool_matches("Read", "Write"));
}

#[test]
fn test_tool_matches_wildcard() {
    assert!(tool_matches("mcp__github__list_issues", "mcp__github__*"));
    assert!(tool_matches("mcp__github__search", "mcp__*"));
    assert!(!tool_matches("Read", "mcp__*"));
}

#[test]
fn test_tool_matches_scoped() {
    assert!(tool_matches("Bash", "Bash(npm:*)"));
    assert!(!tool_matches("Read", "Bash(npm:*)"));
}

#[test]
fn test_is_file_operation() {
    assert!(is_file_operation("Edit"));
    assert!(is_file_operation("Write"));
    assert!(!is_file_operation("Bash"));
    assert!(!is_file_operation("Read"));
}

fn evaluator(allowed: &[&str], disallowed: &[&str], mode: PermissionMode) -> PermissionEvaluator {
    PermissionEvaluator::new(
        allowed.iter().map(|s| s.to_string()).collect(),
        disallowed.iter().map(|s| s.to_string()).collect(),
        mode,
    )
}

#[test]
fn unresolved_tools_follow_the_callback() {
    let e = evaluator(&["Read"], &["Bash"], PermissionMode::Default);
    assert!(e.asks_callback("Write"));
    assert!(!e.asks_callback("Read"));
    assert!(!e.asks_callback("Bash"));
    let allow = e.evaluate(None, "Write", Some(PermissionVerdict::Allow));
    assert!(matches!(allow, PermissionVerdict::Allow));
    let updated = e.evaluate(None, "Write", Some(PermissionVerdict::AllowWithUpdatedInput("{}".into())));
    assert!(matches!(updated, PermissionVerdict::AllowWithUpdatedInput(ref u) if u == "{}"));
    match e.evaluate(None, "Write", Some(PermissionVerdict::Deny { reason: "user said no".into() })) {
        PermissionVerdict::Deny { reason } => assert_eq!(reason, "user said no"),
        v => panic!("unexpected {:?}", v),
    }
    match e.evaluate(None, "Write", None) {
        PermissionVerdict::Deny { reason } => assert_eq!(reason, "Tool 'Write' not approved by any permission rule"),
        v => panic!("unexpected {:?}", v),
    }
}

#[test]
fn rules_decide_before_the_callback() {
    let e = evaluator(&["Read"], &["Bash"], PermissionMode::Default);
    match e.evaluate(None, "Bash", Some(PermissionVerdict::Allow)) {
        PermissionVerdict::Deny { reason } => assert_eq!(reason, "Tool 'Bash' is in disallowed_tools"),
        v => panic!("unexpected {:?}", v),
    }
    let plan = evaluator(&[], &[], PermissionMode::Plan);
    assert!(!plan.asks_callback("Read"));
    assert!(matches!(plan.evaluate(None, "Read", Some(PermissionVerdict::Allow)), PermissionVerdict::Deny { .. }));
    let edits = evaluator(&[], &[], PermissionMode::AcceptEdits);
    assert!(!edits.asks_callback("Edit"));
    assert!(edits.asks_callback("Bash"));
    let hook = e.evaluate(Some(PermissionVerdict::Deny { reason: "hook".into() }), "Read", None);
    assert!(matches!(hook, PermissionVerdict::Deny { ref reason } if reason == "hook"));
}

fn hook_answer(decision: Option<PermissionDecision>, reason: Option<&str>, updated: Option<&str>) -> PreToolUseAnswer {
    PreToolUseAnswer {
        permission_decision: decision,
        permission_decision_reason: reason.map(|r| r.to_string()),
        updated_input: updated.map(|u| u.to_string()),
    }
}

#[test]
fn first_hook_decision_none_without_answers() {
    assert!(first_hook_decision(&Vec::new()).is_none());
}

#[test]
fn first_hook_decision_skips_undecided_answers() {
    let answers = vec![
        hook_answer(None, None, None),
        hook_answer(Some(PermissionDecision::Ask), None, None),
        hook_answer(Some(PermissionDecision::Deny), Some("no rm"), None),
        hook_answer(Some(PermissionDecision::Allow), None, None),
    ];
    match first_hook_decision(&answers) {
        Some(PermissionVerdict::Deny { reason }) => assert_eq!(reason, "no rm"),
        other => panic!("expected a deny, got {:?}", other),
    }
}

#[test]
fn first_hook_decision_allow_before_deny_wins() {
    let answers = vec![
        hook_answer(Some(PermissionDecision::Allow), None, Some("{\"path\":\"/tmp\"}")),
        hook_answer(Some(PermissionDecision::Deny), None, None),
    ];
    match first_hook_decision(&answers) {
        Some(PermissionVerdict::AllowWithUpdatedInput(u)) => assert_eq!(u, "{\"path\":\"/tmp\"}"),
        other => panic!("expected an allow, got {:?}", other),
    }
}

#[test]
fn first_hook_decision_default_deny_reason() {
    let answers = vec![hook_answer(Some(PermissionDecision::Deny), None, None)];
    match first_hook_decision(&answers) {
        Some(PermissionVerdict::Deny { reason }) => assert_eq!(reason, "Denied by hook"),
        other => panic!("expected a deny, got {:?}", other),
    }
}

#[test]
fn first_hook_decision_only_undecided_is_none() {
    let answers = vec![hook_answer(Some(PermissionDecision::Ask), None, None), hook_answer(None, None, None)];
    assert!(first_hook_decision(&answers).is_none());
}
