use openfang_runtime::tool_errors::{ToolErrorTracker, ToolResultEntry};

fn err(name: &str, content: &str) -> ToolResultEntry {
    ToolResultEntry { tool_name: name.to_string(), content: content.to_string(), is_error: true }
}

fn ok(name: &str) -> ToolResultEntry {
    ToolResultEntry { tool_name: name.to_string(), content: "fine".to_string(), is_error: false }
}

#[test]
fn first_second_third_occurrence() {
    let mut t = ToolErrorTracker::new();
    let round = vec![err("web_fetch", "404 not found"), ok("file_read")];
    let g1 = t.compute_guidance(&round, 0).expect("first guidance");
    assert_eq!(
        g1,
        "[System: 1 tool call(s) failed ([web_fetch]). Do not invent results from failed calls or take actions downstream of failed outputs. If the task is not finished, retry with different parameters, a different tool, or a different approach.]"
    );
    let g2 = t.compute_guidance(&round, 0).expect("second guidance");
    assert!(g2.starts_with("[System: The same tool error has occurred twice in a row."));
    assert!(t.compute_guidance(&round, 0).is_none());
    // a clean round resets
    assert!(t.compute_guidance(&[ok("x")], 0).is_none());
    assert!(t.compute_guidance(&round, 0).is_some());
}

#[test]
fn missing_parameter_guidance_lists_tools_once() {
    let mut t = ToolErrorTracker::new();
    let round = vec![
        err("shell_exec", "Missing 'command' parameter"),
        err("file_write", "boom"),
        err("shell_exec", "Missing required field"),
    ];
    let g = t.compute_guidance(&round, 0).expect("guidance");
    assert!(g.starts_with("[System: Tool call(s) to [shell_exec, file_write] are missing required parameters"));
    assert!(g.ends_with("do not call tools with empty {} inputs.]"));
}

#[test]
fn loop_guard_and_denials_are_silent() {
    let mut t = ToolErrorTracker::new();
    let guard = vec![err("a", "Blocked: repeated call"), err("b", "Circuit breaker: open")];
    assert!(t.compute_guidance(&guard, 0).is_none());
    let mut u = ToolErrorTracker::new();
    let denied = vec![err("a", "approval denied")];
    assert!(u.compute_guidance(&denied, 1).is_none());
    let mut w = ToolErrorTracker::new();
    let two = vec![err("a", "x"), err("b", "y")];
    let g = w.compute_guidance(&two, 1).expect("one non-denial error");
    assert!(g.starts_with("[System: 1 tool call(s) failed ([a, b])."));
}

#[test]
fn fingerprint_ignores_order_and_long_suffix() {
    let mut t = ToolErrorTracker::new();
    let long_a = format!("{}{}", "e".repeat(60), "tail-one");
    let long_b = format!("{}{}", "e".repeat(60), "tail-two");
    assert!(t.compute_guidance(&[err("x", &long_a), err("y", "z")], 0).is_some());
    // same errors in another order and differing only after 60 characters: same fingerprint
    let g = t.compute_guidance(&[err("y", "z"), err("x", &long_b)], 0).expect("second");
    assert!(g.contains("twice in a row"));
}

#[test]
fn guidance_resets_after_a_clean_round() {
    let mut t = ToolErrorTracker::new();
    let bad = vec![err("web_fetch", "HTTP 500 upstream")];
    let g1 = t.compute_guidance(&bad, 0).expect("first");
    assert!(g1.starts_with("[System:"));
    let g2 = t.compute_guidance(&bad, 0).expect("second");
    assert!(g2.contains("twice in a row"));
    assert!(t.compute_guidance(&bad, 0).is_none());
    assert!(t.compute_guidance(&[ok("web_fetch")], 0).is_none());
    let again = t.compute_guidance(&bad, 0).expect("after reset");
    assert!(again.starts_with("[System:"));
    assert!(!again.contains("twice in a row"));
}
