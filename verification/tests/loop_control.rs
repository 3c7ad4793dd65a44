use openfang_runtime::loop_control::{
    btw_message, deduplicate_tool_calls, global_circuit_breaker_for, history_trim_count,
    hook_blocked_message, missing_required_params_error, phantom_prompt, redirect_message,
    redirect_prune_indices, sanitize_phase_tool_name, step_limit_message, tool_timeout_message,
    with_loop_guard_warning, EndTurnAction, EndTurnReply, LoopControl, MaxTokensAction,
    PhantomKind, PropertyDoc, RequiredField, EMPTY_AFTER_TOOLS_TEXT, EMPTY_REPLY_TEXT,
    PARTIAL_EMPTY_TEXT, PHANTOM_ACTION_PROMPT,
};
use openfang_runtime::tool_errors::ToolResultEntry;

fn reply(text: &str) -> EndTurnReply {
    EndTurnReply {
        text: text.to_string(),
        silent_directive: false,
        has_tool_calls: false,
        has_any_content: !text.is_empty(),
        silent_failure: false,
    }
}

fn err(content: &str) -> ToolResultEntry {
    ToolResultEntry {
        tool_name: "shell".to_string(),
        content: content.to_string(),
        is_error: true,
    }
}

#[test]
fn empty_first_reply_is_retried_once() {
    let mut c = LoopControl::new(10, 5);
    match c.end_turn(&reply(""), "hi") {
        EndTurnAction::RetryEmpty { repair } => assert!(!repair),
        _ => panic!("expected a retry"),
    }
    c.next_iteration();
    match c.end_turn(&reply(""), "hi") {
        EndTurnAction::Finish { text } => assert_eq!(text, EMPTY_REPLY_TEXT),
        _ => panic!("expected the empty-reply notice"),
    }
}

#[test]
fn silently_failed_request_is_retried_with_repair() {
    let mut c = LoopControl::new(10, 5);
    c.next_iteration();
    let mut r = reply("");
    r.silent_failure = true;
    match c.end_turn(&r, "hi") {
        EndTurnAction::RetryEmpty { repair } => assert!(repair),
        _ => panic!("expected a retry"),
    }
}

#[test]
fn empty_reply_after_tools_gets_task_completed_text() {
    let mut c = LoopControl::new(10, 5);
    c.start_tool_round();
    let v = c.finish_tool_round(&[ToolResultEntry {
        tool_name: "file_read".to_string(),
        content: "ok".to_string(),
        is_error: false,
    }]);
    assert!(!v.exit_all_blocked);
    c.next_iteration();
    match c.end_turn(&reply("   "), "hi") {
        EndTurnAction::Finish { text } => assert_eq!(text, EMPTY_AFTER_TOOLS_TEXT),
        _ => panic!("expected the tools-ran notice"),
    }
}

#[test]
fn silent_token_and_directive_finish_silently() {
    let mut c = LoopControl::new(10, 5);
    assert!(matches!(c.end_turn(&reply(" NO_REPLY "), "hi"), EndTurnAction::Silent));
    let mut r = reply("anything");
    r.silent_directive = true;
    assert!(matches!(c.end_turn(&r, "hi"), EndTurnAction::Silent));
}

#[test]
fn claimed_delivery_without_tools_is_reprompted_on_first_iteration_only() {
    let mut c = LoopControl::new(10, 5);
    let claim = "I have sent the message to your Telegram channel.";
    match c.end_turn(&reply(claim), "tell them") {
        EndTurnAction::Reprompt { kind, assistant_text } => {
            assert_eq!(kind, PhantomKind::Action);
            assert_eq!(assistant_text, claim);
            assert_eq!(phantom_prompt(kind), PHANTOM_ACTION_PROMPT);
        }
        _ => panic!("expected a re-prompt"),
    }
    c.next_iteration();
    match c.end_turn(&reply(claim), "tell them") {
        EndTurnAction::Finish { text } => assert_eq!(text, claim),
        _ => panic!("expected the answer"),
    }
}

#[test]
fn process_claim_without_process_tool_is_reprompted_and_clears_tools() {
    let mut c = LoopControl::new(10, 5);
    c.record_tool_called("process_list");
    c.record_tool_called("process_list");
    assert_eq!(c.tools_called, vec!["process_list".to_string()]);
    match c.end_turn(&reply("The bot is now running."), "start the bot") {
        EndTurnAction::Reprompt { kind, .. } => assert_eq!(kind, PhantomKind::Process),
        _ => panic!("expected a process re-prompt"),
    }
    assert!(c.tools_called.is_empty());
}

#[test]
fn process_claim_with_process_tool_finishes() {
    let mut c = LoopControl::new(10, 5);
    c.record_tool_called("process_start");
    match c.end_turn(&reply("The bot is now running."), "start the bot") {
        EndTurnAction::Finish { text } => assert_eq!(text, "The bot is now running."),
        _ => panic!("expected the answer"),
    }
    assert!(c.tools_called.is_empty());
}

#[test]
fn three_fully_blocked_rounds_exit() {
    let mut c = LoopControl::new(20, 5);
    let blocked = vec![err("Blocked: repeated call"), err("Circuit breaker: stop")];
    assert!(!c.finish_tool_round(&blocked).exit_all_blocked);
    assert!(!c.finish_tool_round(&blocked).exit_all_blocked);
    // A round with an ordinary error resets the streak.
    assert!(!c.finish_tool_round(&[err("file not found")]).exit_all_blocked);
    assert_eq!(c.consecutive_all_blocked, 0);
    assert!(!c.finish_tool_round(&blocked).exit_all_blocked);
    assert!(!c.finish_tool_round(&blocked).exit_all_blocked);
    assert!(c.finish_tool_round(&blocked).exit_all_blocked);
}

#[test]
fn denials_are_counted_and_noticed() {
    let mut c = LoopControl::new(20, 5);
    let v = c.finish_tool_round(&[
        err("Tool 'shell' requires human approval and was denied"),
        err("other failure"),
    ]);
    assert_eq!(v.denial_count, 1);
    let notice = v.denial_notice.expect("notice");
    assert!(notice.starts_with("[System: 1 tool call(s) were denied by approval policy."));
    let v2 = c.finish_tool_round(&[err("other failure")]);
    assert_eq!(v2.denial_count, 0);
    assert!(v2.denial_notice.is_none());
}

#[test]
fn wrap_up_injected_near_iteration_limit() {
    let mut c = LoopControl::new(5, 5);
    assert!(!c.finish_tool_round(&[]).wrap_up);
    c.next_iteration();
    assert!(c.finish_tool_round(&[]).wrap_up);
}

#[test]
fn token_limit_continues_then_returns_partial() {
    let mut c = LoopControl::new(10, 3);
    assert!(matches!(c.max_tokens("part one"), MaxTokensAction::Continue));
    assert!(matches!(c.max_tokens("part two"), MaxTokensAction::Continue));
    match c.max_tokens("  ") {
        MaxTokensAction::FinishPartial { text } => assert_eq!(text, PARTIAL_EMPTY_TEXT),
        _ => panic!("expected the partial reply"),
    }
    c.start_tool_round();
    assert_eq!(c.consecutive_max_tokens, 0);
    assert!(matches!(c.max_tokens("again"), MaxTokensAction::Continue));
}

#[test]
fn iteration_budget_runs_out() {
    let mut c = LoopControl::new(2, 5);
    assert!(c.in_budget());
    c.next_iteration();
    assert!(c.in_budget());
    c.next_iteration();
    assert!(!c.in_budget());
    assert!(step_limit_message(2).starts_with("I reached my step limit (2 steps)"));
}

#[test]
fn injected_message_texts() {
    assert_eq!(btw_message("note"), "[btw] note");
    assert!(redirect_message("do X").ends_with("New directive from user: do X"));
    assert_eq!(tool_timeout_message("shell", 300), "Tool 'shell' timed out after 300s.");
    assert_eq!(hook_blocked_message("shell", "policy"), "Hook blocked tool 'shell': policy");
    assert_eq!(with_loop_guard_warning("out", "slow down"), "out\n\n[LOOP GUARD] slow down");
}

#[test]
fn redirect_prunes_last_eight_assistant_turns() {
    let roles = vec![true, false, true, true, false];
    assert_eq!(redirect_prune_indices(&roles), vec![3, 2, 0]);
    let many = vec![true; 12];
    assert_eq!(redirect_prune_indices(&many), vec![11, 10, 9, 8, 7, 6, 5, 4]);
}

#[test]
fn duplicate_tool_calls_keep_first() {
    assert_eq!(deduplicate_tool_calls(&[7, 3, 7, 9, 3]), vec![0, 1, 3]);
    assert!(deduplicate_tool_calls(&[]).is_empty());
}

#[test]
fn phase_tool_name_is_sanitized() {
    assert_eq!(sanitize_phase_tool_name("we\u{7}b\nfetch"), "webfetch");
    let long = "x".repeat(100);
    assert_eq!(sanitize_phase_tool_name(&long).chars().count(), 64);
}

#[test]
fn circuit_breaker_and_history_limits() {
    assert_eq!(global_circuit_breaker_for(80, 30), 240);
    assert_eq!(global_circuit_breaker_for(10, 30), 30);
    assert_eq!(history_trim_count(70, 60), 10);
    assert_eq!(history_trim_count(5, 60), 0);
}

#[test]
fn missing_required_parameters_are_described() {
    let fields = vec![
        RequiredField {
            name: Some("path".to_string()),
            present: false,
            property: Some(PropertyDoc {
                ty: Some("string".to_string()),
                description: Some("File to read".to_string()),
            }),
        },
        RequiredField {
            name: Some("mode".to_string()),
            present: false,
            property: Some(PropertyDoc { ty: None, description: None }),
        },
        RequiredField { name: Some("limit".to_string()), present: false, property: None },
        RequiredField { name: Some("ok".to_string()), present: true, property: None },
    ];
    let msg = missing_required_params_error("file_read", "{}", Some(&fields)).expect("error");
    assert_eq!(
        msg,
        "Error: 'file_read' called without required parameter(s). Received: {}. Missing required field(s) — path (string): File to read; mode (any); limit. Retry with all required fields supplied."
    );
    assert!(missing_required_params_error("t", "{}", None).is_none());
    assert!(missing_required_params_error("t", "{}", Some(&fields[3..])).is_none());
}
