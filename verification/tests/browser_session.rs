use openfang_runtime::browser_mode::{BrowserCommand, BrowserMode};
use openfang_runtime::browser_session::{
    back_report, click_report, click_script, command_failure, navigate_report, page_info_failure,
    page_ready, plan_session, read_page_report, run_js_failure, script_failure, scroll_arguments,
    scroll_delta, scroll_report, scroll_script, session_ready_message, session_status, tool_failure,
    type_report, type_script, wait_plan, wait_probe_script, wait_report, wait_timeout_argument,
    wait_timeout_message, SessionStep, RUN_JS_HINT,
};

#[test]
fn test_session_status_shape_no_session() {
    let s = session_status("agent-123", None, BrowserMode::Headless, 9222, None);
    assert_eq!(s.agent_id, "agent-123");
    assert_eq!(s.active_mode, "none");
    assert_eq!(s.default_mode, "headless");
    assert_eq!(s.attach_port, 9222);
    assert!(s.available_modes.contains(&"attach"));
}

#[test]
fn session_status_with_chromium_lists_spawn_modes() {
    let s = session_status(
        "a",
        Some(BrowserMode::Headed),
        BrowserMode::Headless,
        9333,
        Some("/usr/bin/chromium".to_string()),
    );
    assert_eq!(s.active_mode, "headed");
    assert!(s.chromium_available);
    assert_eq!(s.chromium_path.as_deref(), Some("/usr/bin/chromium"));
    assert_eq!(s.available_modes, vec!["headless", "headed", "attach"]);
    let none = session_status("a", None, BrowserMode::Attach, 9333, None);
    assert!(!none.chromium_available);
    assert_eq!(none.available_modes, vec!["attach"]);
    assert_eq!(none.default_mode, "attach");
}

#[test]
fn session_reused_when_mode_matches_or_unspecified() {
    assert!(matches!(
        plan_session(Some(BrowserMode::Headless), None, 1, 5, BrowserMode::Headed),
        SessionStep::Reuse
    ));
    assert!(matches!(
        plan_session(Some(BrowserMode::Headed), Some(BrowserMode::Headed), 5, 5, BrowserMode::Headless),
        SessionStep::Reuse
    ));
}

#[test]
fn session_reopened_in_requested_mode() {
    match plan_session(Some(BrowserMode::Headless), Some(BrowserMode::Headed), 5, 5, BrowserMode::Headless) {
        SessionStep::Open { mode, close_existing } => {
            assert_eq!(mode, BrowserMode::Headed);
            assert!(close_existing);
        }
        _ => panic!("expected a reopen"),
    }
    match plan_session(None, None, 0, 5, BrowserMode::Attach) {
        SessionStep::Open { mode, close_existing } => {
            assert_eq!(mode, BrowserMode::Attach);
            assert!(!close_existing);
        }
        _ => panic!("expected an open"),
    }
}

#[test]
fn session_refused_at_the_limit() {
    match plan_session(None, Some(BrowserMode::Headless), 5, 5, BrowserMode::Headless) {
        SessionStep::Refuse { close_existing, message } => {
            assert!(!close_existing);
            assert_eq!(
                message,
                "Maximum browser sessions reached (5). Close an existing session first."
            );
        }
        _ => panic!("expected a refusal"),
    }
    // The open session is closed first; the limit then counts the others.
    match plan_session(Some(BrowserMode::Headless), Some(BrowserMode::Attach), 3, 2, BrowserMode::Headless) {
        SessionStep::Refuse { close_existing, .. } => assert!(close_existing),
        _ => panic!("expected a refusal"),
    }
    assert!(matches!(
        plan_session(None, None, 0, 0, BrowserMode::Headless),
        SessionStep::Refuse { .. }
    ));
}

#[test]
fn scripts_embed_json_literals() {
    let c = click_script("#go \"x\"");
    assert!(c.starts_with("(() => {\n    let sel = \"#go \\\"x\\\"\";\n    let el = document.querySelector(sel);"));
    assert!(c.ends_with("})()"));
    let t = type_script("input", "a\nb");
    assert!(t.contains("let sel = \"input\";\n    let txt = \"a\\nb\";\n"));
    assert!(t.contains("'Input not found: ' + sel"));
    assert_eq!(wait_probe_script("#x"), "document.querySelector(\"#x\") ? 'found' : null");
}

#[test]
fn scroll_offsets_and_script() {
    assert_eq!(scroll_delta("up", 600), (0, -600));
    assert_eq!(scroll_delta("down", 600), (0, 600));
    assert_eq!(scroll_delta("left", 50), (-50, 0));
    assert_eq!(scroll_delta("right", 50), (50, 0));
    assert_eq!(scroll_delta("sideways", 7), (0, 7));
    assert_eq!(
        scroll_script(0, -600),
        "window.scrollBy(0, -600); JSON.stringify({scrollX: window.scrollX, scrollY: window.scrollY})"
    );
    assert_eq!(scroll_arguments(None, None), ("down".to_string(), 600));
    assert_eq!(scroll_arguments(Some("up"), Some(4_294_967_396)), ("up".to_string(), 100));
    assert_eq!(scroll_report("0", "1200"), "Scrolled. Position: scrollX=0, scrollY=1200");
}

#[test]
fn waits_are_capped_and_polled() {
    assert_eq!(wait_timeout_argument(None), 5000);
    assert_eq!(wait_plan(5000), (5000, 25));
    assert_eq!(wait_plan(100), (100, 1));
    assert_eq!(wait_plan(90_000), (30_000, 150));
    assert_eq!(
        wait_timeout_message("#x", 5000),
        "Timed out waiting for selector: #x (5000ms)"
    );
    assert!(page_ready("complete"));
    assert!(page_ready("interactive"));
    assert!(!page_ready("loading"));
}

#[test]
fn failures_are_reported() {
    assert_eq!(script_failure(Some(false), Some("Element not found: #x"), "Click failed"), Some("Element not found: #x".to_string()));
    assert_eq!(script_failure(Some(false), None, "Type failed"), Some("Type failed".to_string()));
    assert_eq!(script_failure(Some(true), Some("ignored"), "Click failed"), None);
    assert_eq!(script_failure(None, None, "Click failed"), None);
    assert_eq!(run_js_failure("boom"), "JS execution failed: boom.");
    assert_eq!(
        run_js_failure("Uncaught SyntaxError: Illegal return statement"),
        format!("JS execution failed: Uncaught SyntaxError: Illegal return statement.{RUN_JS_HINT}")
    );
    let nav = BrowserCommand::Navigate { url: "https://e.com".to_string() };
    assert_eq!(command_failure(&nav, "timeout"), "Navigate failed: timeout");
    assert_eq!(page_info_failure(&BrowserCommand::Back, "x"), "Back succeeded but page info failed: x");
    assert_eq!(tool_failure(&BrowserCommand::ReadPage, None), "ReadPage failed");
    let wait = BrowserCommand::Wait { selector: "#a".to_string(), timeout_ms: 1 };
    assert_eq!(tool_failure(&wait, None), "Wait timed out");
    assert_eq!(tool_failure(&wait, Some("late".to_string())), "late");
    let js = BrowserCommand::RunJs { expression: "1".to_string() };
    assert_eq!(tool_failure(&js, None), "JS execution failed");
}

#[test]
fn tool_reports() {
    assert_eq!(
        navigate_report("https://a.com", None, None, None, "<w>"),
        "Navigated to: https://a.com\nTitle: (no title)\nBrowser mode: (none)\n\n<w>"
    );
    assert_eq!(
        navigate_report("https://a.com", Some("https://b.com/"), Some("B"), Some(BrowserMode::Headed), "w"),
        "Navigated to: https://b.com/\nTitle: B\nBrowser mode: headed\n\nw"
    );
    assert_eq!(click_report("#b", Some("T"), None), "Clicked: #b\nPage: T\nURL: ");
    assert_eq!(type_report("#i", "hi"), "Typed into #i: hi");
    assert_eq!(read_page_report(None, Some("u"), "w"), "Page: (no title)\nURL: u\n\nw");
    assert_eq!(back_report(Some("T"), Some("u")), "Went back.\nPage: T\nURL: u");
    assert_eq!(wait_report("#x"), "Element found: #x");
    assert_eq!(
        session_ready_message(BrowserMode::Attach),
        "Browser session ready (mode: attach). Use browser_navigate / browser_click / etc. to drive it."
    );
}
