//! What a browser session does around its DevTools calls: whether an agent's session is
//! reused, reopened in another mode or refused, the scripts sent for the page commands, how
//! long a selector is waited for, and the text each browser tool reports back.

use vstd::prelude::*;
use crate::browser_mode::{mode_name, BrowserCommand, BrowserMode};
use crate::text::{
    append_chars, append_str, chars_to_string, contains, contains_str, decimal, eq_str, i64_decimal, owned,
    signed_decimal, str_chars, u64_decimal,
};
use crate::tool_recovery::{json_string, json_string_literal};

verus! {

/// Interval between two polls of the page state, in milliseconds.
pub const PAGE_LOAD_POLL_INTERVAL_MS: u64 = 200;

/// Polls of `document.readyState` before a page load is given up on (30 seconds).
pub const PAGE_LOAD_MAX_POLLS: u32 = 150;

/// Longest wait for a selector, in milliseconds.
pub const MAX_SELECTOR_WAIT_MS: u64 = 30000;

// ---------------------------------------------------------------------------
// Sessions per agent
// ---------------------------------------------------------------------------

/// What happens to an agent's session before a command runs.
pub enum SessionStep {
    /// The open session is used as it is.
    Reuse,
    /// A new session is opened in `mode`; the open one, if any, is closed first.
    Open { mode: BrowserMode, close_existing: bool },
    /// The session limit is reached and nothing is opened; the open one, if any, is closed
    /// first all the same.
    Refuse { close_existing: bool, message: String },
}

/// A new session is needed: none is open, or one was asked for in another mode.
pub open spec fn needs_new_session(current: Option<BrowserMode>, requested: Option<BrowserMode>) -> bool {
    match current {
        None => true,
        Some(c) => match requested {
            None => false,
            Some(w) => w != c,
        },
    }
}

/// Sessions left open once the agent's own session, if any, is closed.
pub open spec fn sessions_after_close(current: Option<BrowserMode>, open_sessions: nat) -> int {
    if current is Some {
        open_sessions - 1
    } else {
        open_sessions as int
    }
}

/// The mode a new session is opened in: the requested one, else the default.
pub open spec fn mode_to_open(requested: Option<BrowserMode>, default_mode: BrowserMode) -> BrowserMode {
    match requested {
        Some(m) => m,
        None => default_mode,
    }
}

/// The refusal when `max_sessions` sessions are open.
pub open spec fn max_sessions_message(max_sessions: nat) -> Seq<char> {
    "Maximum browser sessions reached ("@ + decimal(max_sessions)
        + "). Close an existing session first."@
}

/// Decides what to do with an agent's session: `current` is the mode of its open session,
/// `requested` the mode asked for by the call (`None`: whatever is open, else the default),
/// `open_sessions` the sessions open over all agents.
pub fn plan_session(
    current: Option<BrowserMode>,
    requested: Option<BrowserMode>,
    open_sessions: usize,
    max_sessions: usize,
    default_mode: BrowserMode,
) -> (r: SessionStep)
    requires
        current is Some ==> open_sessions >= 1,
    ensures
        (r is Reuse) <==> !needs_new_session(current, requested),
        needs_new_session(current, requested) ==> ((r is Open) <==> sessions_after_close(
            current,
            open_sessions as nat,
        ) < max_sessions),
        r matches SessionStep::Open { mode, close_existing } ==> mode == mode_to_open(
            requested,
            default_mode,
        ) && close_existing == (current is Some),
        r matches SessionStep::Refuse { close_existing, message } ==> close_existing == (
        current is Some) && message@ == max_sessions_message(max_sessions as nat),
        requested matches Some(w) ==> (r is Reuse ==> current == Some(w)),
        requested matches Some(w) ==> (r matches SessionStep::Open { mode, .. } ==> mode == w),
{
    let close_existing = match current {
        None => false,
        Some(c) => match requested {
            None => {
                return SessionStep::Reuse;
            },
            Some(w) => {
                if w == c {
                    return SessionStep::Reuse;
                }
                true
            },
        },
    };
    let remaining = if close_existing {
        open_sessions - 1
    } else {
        open_sessions
    };
    if remaining >= max_sessions {
        let mut m = str_chars("Maximum browser sessions reached (");
        let d = u64_decimal(max_sessions as u64);
        append_chars(&mut m, d.as_slice());
        append_str(&mut m, "). Close an existing session first.");
        return SessionStep::Refuse { close_existing, message: chars_to_string(m.as_slice()) };
    }
    let mode = match requested {
        Some(m) => m,
        None => default_mode,
    };
    SessionStep::Open { mode, close_existing }
}

// ---------------------------------------------------------------------------
// Page scripts
// ---------------------------------------------------------------------------

/// Start of the click and type scripts, up to the selector.
pub const CLICK_HEAD: &'static str = "(() => {\n    let sel = ";

/// Rest of the click script after the selector.
pub const CLICK_TAIL: &'static str = ";\n    let el = document.querySelector(sel);\n    if (!el) {\n        const all = document.querySelectorAll('a, button, [role=\"button\"], input[type=\"submit\"], [onclick]');\n        const lower = sel.toLowerCase();\n        for (const e of all) {\n            if (e.textContent.trim().toLowerCase().includes(lower)) { el = e; break; }\n        }\n    }\n    if (!el) return JSON.stringify({success: false, error: 'Element not found: ' + sel});\n    el.scrollIntoView({block: 'center'});\n    el.click();\n    return JSON.stringify({success: true, tag: el.tagName, text: el.textContent.substring(0, 100).trim()});\n})()";

/// Part of the type script between the selector and the text.
pub const TYPE_MID: &'static str = ";\n    let txt = ";

/// Rest of the type script after the text.
pub const TYPE_TAIL: &'static str = ";\n    let el = document.querySelector(sel);\n    if (!el) return JSON.stringify({success: false, error: 'Input not found: ' + sel});\n    el.focus();\n    el.value = txt;\n    el.dispatchEvent(new Event('input', {bubbles: true}));\n    el.dispatchEvent(new Event('change', {bubbles: true}));\n    return JSON.stringify({success: true, selector: sel, typed: txt.length + ' chars'});\n})()";

/// The script that reads a page's title, address and main text (as JSON), without scripts,
/// styles and page chrome.
pub const EXTRACT_CONTENT_JS: &'static str = "(() => {\n    const title = document.title || '';\n    const url = location.href || '';\n    const body = document.body;\n    if (!body) return JSON.stringify({title, url, content: ''});\n\n    const clone = body.cloneNode(true);\n    const remove = ['script','style','nav','footer','header','aside','iframe','noscript','svg','canvas'];\n    remove.forEach(tag => clone.querySelectorAll(tag).forEach(el => el.remove()));\n\n    let root = clone.querySelector('main, article, [role=\"main\"], .content, #content');\n    if (!root) root = clone;\n\n    const lines = [];\n    function walk(node) {\n        if (node.nodeType === 3) {\n            const t = node.textContent.trim();\n            if (t) lines.push(t);\n            return;\n        }\n        if (node.nodeType !== 1) return;\n        const tag = node.tagName.toLowerCase();\n        if (['h1','h2','h3','h4','h5','h6'].includes(tag)) {\n            const level = '#'.repeat(parseInt(tag[1]));\n            lines.push('\\n' + level + ' ' + node.textContent.trim());\n            return;\n        }\n        if (tag === 'a' && node.href && node.textContent.trim()) {\n            lines.push('[' + node.textContent.trim() + '](' + node.href + ')');\n            return;\n        }\n        if (tag === 'li') {\n            lines.push('- ' + node.textContent.trim());\n            return;\n        }\n        if (tag === 'br') { lines.push(''); return; }\n        if (['p','div','section','tr'].includes(tag)) lines.push('');\n        for (const child of node.childNodes) walk(child);\n        if (['p','div','section','tr'].includes(tag)) lines.push('');\n    }\n    walk(root);\n\n    let content = lines.join('\\n').replace(/\\n{3,}/g, '\\n\\n').trim();\n    if (content.length > 50000) content = content.substring(0, 50000) + '\\n... (truncated)';\n    return JSON.stringify({title, url, content});\n})()";

/// The script that clicks the element matching `selector`, or else the first link or button
/// whose text contains it.
pub fn click_script(selector: &str) -> (r: String)
    ensures
        r@ == CLICK_HEAD@ + json_string(selector@) + CLICK_TAIL@,
{
    let mut v = str_chars(CLICK_HEAD);
    let s = json_string_literal(selector);
    append_str(&mut v, s.as_str());
    append_str(&mut v, CLICK_TAIL);
    chars_to_string(v.as_slice())
}

/// The script that types `text` into the input matching `selector`.
pub fn type_script(selector: &str, text: &str) -> (r: String)
    ensures
        r@ == CLICK_HEAD@ + json_string(selector@) + TYPE_MID@ + json_string(text@) + TYPE_TAIL@,
{
    let mut v = str_chars(CLICK_HEAD);
    let s = json_string_literal(selector);
    append_str(&mut v, s.as_str());
    append_str(&mut v, TYPE_MID);
    let t = json_string_literal(text);
    append_str(&mut v, t.as_str());
    append_str(&mut v, TYPE_TAIL);
    chars_to_string(v.as_slice())
}

/// The script that reports whether an element matches `selector`.
pub fn wait_probe_script(selector: &str) -> (r: String)
    ensures
        r@ == "document.querySelector("@ + json_string(selector@) + ") ? 'found' : null"@,
{
    let mut v = str_chars("document.querySelector(");
    let s = json_string_literal(selector);
    append_str(&mut v, s.as_str());
    append_str(&mut v, ") ? 'found' : null");
    chars_to_string(v.as_slice())
}

/// The page offset of a scroll: `up` and `left` move back, `down` and `right` forward, and
/// any other direction scrolls down.
pub open spec fn scroll_delta_spec(direction: Seq<char>, amount: int) -> (int, int) {
    if direction == "up"@ {
        (0, -amount)
    } else if direction == "down"@ {
        (0, amount)
    } else if direction == "left"@ {
        (-amount, 0)
    } else if direction == "right"@ {
        (amount, 0)
    } else {
        (0, amount)
    }
}

/// The horizontal and vertical offsets of a scroll by `amount` pixels.
pub fn scroll_delta(direction: &str, amount: i32) -> (r: (i32, i32))
    requires
        amount > i32::MIN,
    ensures
        (r.0 as int, r.1 as int) == scroll_delta_spec(direction@, amount as int),
{
    let d = str_chars(direction);
    if eq_str(d.as_slice(), "up") {
        (0, -amount)
    } else if eq_str(d.as_slice(), "down") {
        (0, amount)
    } else if eq_str(d.as_slice(), "left") {
        (-amount, 0)
    } else if eq_str(d.as_slice(), "right") {
        (amount, 0)
    } else {
        (0, amount)
    }
}

/// The script that scrolls by `(dx, dy)` and reports the new position.
pub fn scroll_script(dx: i32, dy: i32) -> (r: String)
    ensures
        r@ == "window.scrollBy("@ + signed_decimal(dx as int) + ", "@ + signed_decimal(dy as int)
            + "); JSON.stringify({scrollX: window.scrollX, scrollY: window.scrollY})"@,
{
    let mut v = str_chars("window.scrollBy(");
    let a = i64_decimal(dx as i64);
    append_chars(&mut v, a.as_slice());
    append_str(&mut v, ", ");
    let b = i64_decimal(dy as i64);
    append_chars(&mut v, b.as_slice());
    append_str(&mut v, "); JSON.stringify({scrollX: window.scrollX, scrollY: window.scrollY})");
    chars_to_string(v.as_slice())
}

/// The arguments of a scroll tool call: the direction (`down` when absent) and the amount
/// (600 when absent), the amount taken as its low 32 bits.
pub fn scroll_arguments(direction: Option<&str>, amount: Option<i64>) -> (r: (String, i32))
    ensures
        r.0@ == match direction {
            Some(d) => d@,
            None => "down"@,
        },
        r.1 == match amount {
            Some(a) => a as i32,
            None => 600i32,
        },
{
    let d = match direction {
        Some(d) => owned(d),
        None => owned("down"),
    };
    let a: i32 = match amount {
        Some(a) => a as i32,
        None => 600,
    };
    (d, a)
}

/// The timeout of a wait tool call in milliseconds: 5000 when absent.
pub fn wait_timeout_argument(timeout_ms: Option<u64>) -> (r: u64)
    ensures
        r == match timeout_ms {
            Some(t) => t,
            None => 5000u64,
        },
{
    match timeout_ms {
        Some(t) => t,
        None => 5000,
    }
}

/// How a selector is waited for: the wait in milliseconds (at most 30 s) and the number of
/// polls, one per poll interval and at least one.
pub fn wait_plan(timeout_ms: u64) -> (r: (u64, u64))
    ensures
        r.0 == if timeout_ms < MAX_SELECTOR_WAIT_MS { timeout_ms } else { MAX_SELECTOR_WAIT_MS },
        r.1 == if r.0 / PAGE_LOAD_POLL_INTERVAL_MS < 1 { 1 } else { r.0 / PAGE_LOAD_POLL_INTERVAL_MS },
        1 <= r.1 <= 150,
{
    let max_ms = if timeout_ms < MAX_SELECTOR_WAIT_MS {
        timeout_ms
    } else {
        MAX_SELECTOR_WAIT_MS
    };
    let q = max_ms / PAGE_LOAD_POLL_INTERVAL_MS;
    let polls = if q < 1 {
        1
    } else {
        q
    };
    (max_ms, polls)
}

/// The failure when a selector did not appear within `max_ms`.
pub fn wait_timeout_message(selector: &str, max_ms: u64) -> (r: String)
    ensures
        r@ == "Timed out waiting for selector: "@ + selector@ + " ("@ + decimal(max_ms as nat) + "ms)"@,
{
    let mut v = str_chars("Timed out waiting for selector: ");
    append_str(&mut v, selector);
    append_str(&mut v, " (");
    let d = u64_decimal(max_ms);
    append_chars(&mut v, d.as_slice());
    append_str(&mut v, "ms)");
    chars_to_string(v.as_slice())
}

/// The page has loaded far enough to be read: its ready state is `complete` or
/// `interactive`.
pub fn page_ready(state: &str) -> (r: bool)
    ensures
        r == (state@ == "complete"@ || state@ == "interactive"@),
{
    let s = str_chars(state);
    eq_str(s.as_slice(), "complete") || eq_str(s.as_slice(), "interactive")
}

/// The failure a page script reported about itself: present exactly when its `success` is
/// `false`, with its `error`, else `fallback`.
pub fn script_failure(success: Option<bool>, error: Option<&str>, fallback: &str) -> (r: Option<String>)
    ensures
        match r {
            Some(m) => success == Some(false) && m@ == match error {
                Some(e) => e@,
                None => fallback@,
            },
            None => success != Some(false),
        },
{
    match success {
        Some(false) => match error {
            Some(e) => Some(owned(e)),
            None => Some(owned(fallback)),
        },
        _ => None,
    }
}

/// The hint added when a script fails to evaluate.
pub const RUN_JS_HINT: &'static str = " Note: browser_run_js uses Runtime.evaluate which requires a value expression. Use (function() { ... })() syntax for multi-statement code with return values \u{2014} top-level `return` is not valid here.";

/// The failure of a script run for the agent: the hint on top-level `return` is added when
/// the error is an uncaught exception or a syntax error.
pub fn run_js_failure(error: &str) -> (r: String)
    ensures
        r@ == "JS execution failed: "@ + error@ + "."@ + if contains(error@, "Uncaught"@) || contains(
            error@,
            "SyntaxError"@,
        ) {
            RUN_JS_HINT@
        } else {
            Seq::<char>::empty()
        },
{
    let e = str_chars(error);
    let mut v = str_chars("JS execution failed: ");
    append_chars(&mut v, e.as_slice());
    append_str(&mut v, ".");
    if contains_str(e.as_slice(), "Uncaught") || contains_str(e.as_slice(), "SyntaxError") {
        append_str(&mut v, RUN_JS_HINT);
    } else {
        assert(v@ + Seq::<char>::empty() =~= v@);
    }
    chars_to_string(v.as_slice())
}

/// The name a command's failures start with.
pub open spec fn command_label(cmd: BrowserCommand) -> Seq<char> {
    match cmd {
        BrowserCommand::Navigate { .. } => "Navigate"@,
        BrowserCommand::Click { .. } => "Click"@,
        BrowserCommand::Type { .. } => "Type"@,
        BrowserCommand::Screenshot => "Screenshot"@,
        BrowserCommand::ReadPage => "ReadPage"@,
        BrowserCommand::Close => "Close"@,
        BrowserCommand::Scroll { .. } => "Scroll"@,
        BrowserCommand::Wait { .. } => "Wait"@,
        BrowserCommand::RunJs { .. } => "JS execution"@,
        BrowserCommand::Back => "Back"@,
    }
}

fn command_label_str(cmd: &BrowserCommand) -> (r: &'static str)
    ensures
        r@ == command_label(*cmd),
{
    match cmd {
        BrowserCommand::Navigate { .. } => "Navigate",
        BrowserCommand::Click { .. } => "Click",
        BrowserCommand::Type { .. } => "Type",
        BrowserCommand::Screenshot => "Screenshot",
        BrowserCommand::ReadPage => "ReadPage",
        BrowserCommand::Close => "Close",
        BrowserCommand::Scroll { .. } => "Scroll",
        BrowserCommand::Wait { .. } => "Wait",
        BrowserCommand::RunJs { .. } => "JS execution",
        BrowserCommand::Back => "Back",
    }
}

/// The failure of a DevTools call made for `cmd`: `<command> failed: <error>`.
pub fn command_failure(cmd: &BrowserCommand, error: &str) -> (r: String)
    ensures
        r@ == command_label(*cmd) + " failed: "@ + error@,
{
    let mut v = str_chars(command_label_str(cmd));
    append_str(&mut v, " failed: ");
    append_str(&mut v, error);
    chars_to_string(v.as_slice())
}

/// The failure when a navigation or a step back succeeded but the page could not be read.
pub fn page_info_failure(cmd: &BrowserCommand, error: &str) -> (r: String)
    ensures
        r@ == command_label(*cmd) + " succeeded but page info failed: "@ + error@,
{
    let mut v = str_chars(command_label_str(cmd));
    append_str(&mut v, " succeeded but page info failed: ");
    append_str(&mut v, error);
    chars_to_string(v.as_slice())
}

/// What a browser tool reports when the session answered with a failure: the session's
/// error, else a fixed text for the command (`Wait timed out` for a wait).
pub fn tool_failure(cmd: &BrowserCommand, error: Option<String>) -> (r: String)
    ensures
        r@ == match error {
            Some(e) => e@,
            None => if (*cmd) is Wait {
                "Wait timed out"@
            } else {
                command_label(*cmd) + " failed"@
            },
        },
{
    match error {
        Some(e) => e,
        None => {
            if let BrowserCommand::Wait { .. } = cmd {
                owned("Wait timed out")
            } else {
                let mut v = str_chars(command_label_str(cmd));
                append_str(&mut v, " failed");
                chars_to_string(v.as_slice())
            }
        },
    }
}

// ---------------------------------------------------------------------------
// Tool reports
// ---------------------------------------------------------------------------

/// A page value, or the default shown when the page did not report it.
pub open spec fn or_default(v: Option<&str>, d: Seq<char>) -> Seq<char> {
    match v {
        Some(s) => s@,
        None => d,
    }
}

fn push_or(out: &mut Vec<char>, v: Option<&str>, d: &str)
    ensures
        final(out)@ == old(out)@ + or_default(v, d@),
{
    match v {
        Some(s) => append_str(out, s),
        None => append_str(out, d),
    }
}

/// The mode shown for an agent's session: its name, or `(none)` without a session.
pub open spec fn session_mode_label(mode: Option<BrowserMode>) -> Seq<char> {
    match mode {
        Some(m) => mode_name(m),
        None => "(none)"@,
    }
}

/// The navigation report: where the page ended up (the requested URL when the page did not
/// say), its title, the session's mode and the wrapped page content.
pub fn navigate_report(
    requested_url: &str,
    page_url: Option<&str>,
    title: Option<&str>,
    mode: Option<BrowserMode>,
    wrapped: &str,
) -> (r: String)
    ensures
        r@ == "Navigated to: "@ + or_default(page_url, requested_url@) + "\nTitle: "@ + or_default(
            title,
            "(no title)"@,
        ) + "\nBrowser mode: "@ + session_mode_label(mode) + "\n\n"@ + wrapped@,
{
    let mut v = str_chars("Navigated to: ");
    push_or(&mut v, page_url, requested_url);
    append_str(&mut v, "\nTitle: ");
    push_or(&mut v, title, "(no title)");
    append_str(&mut v, "\nBrowser mode: ");
    match mode {
        Some(m) => append_str(&mut v, m.as_str()),
        None => append_str(&mut v, "(none)"),
    }
    append_str(&mut v, "\n\n");
    append_str(&mut v, wrapped);
    chars_to_string(v.as_slice())
}

/// The click report.
pub fn click_report(selector: &str, title: Option<&str>, url: Option<&str>) -> (r: String)
    ensures
        r@ == "Clicked: "@ + selector@ + "\nPage: "@ + or_default(title, "(no title)"@) + "\nURL: "@
            + or_default(url, ""@),
{
    let mut v = str_chars("Clicked: ");
    append_str(&mut v, selector);
    append_str(&mut v, "\nPage: ");
    push_or(&mut v, title, "(no title)");
    append_str(&mut v, "\nURL: ");
    push_or(&mut v, url, "");
    chars_to_string(v.as_slice())
}

/// The typing report.
pub fn type_report(selector: &str, text: &str) -> (r: String)
    ensures
        r@ == "Typed into "@ + selector@ + ": "@ + text@,
{
    let mut v = str_chars("Typed into ");
    append_str(&mut v, selector);
    append_str(&mut v, ": ");
    append_str(&mut v, text);
    chars_to_string(v.as_slice())
}

/// The page read report, with the wrapped page content.
pub fn read_page_report(title: Option<&str>, url: Option<&str>, wrapped: &str) -> (r: String)
    ensures
        r@ == "Page: "@ + or_default(title, "(no title)"@) + "\nURL: "@ + or_default(url, ""@) + "\n\n"@
            + wrapped@,
{
    let mut v = str_chars("Page: ");
    push_or(&mut v, title, "(no title)");
    append_str(&mut v, "\nURL: ");
    push_or(&mut v, url, "");
    append_str(&mut v, "\n\n");
    append_str(&mut v, wrapped);
    chars_to_string(v.as_slice())
}

/// The report of a step back in history.
pub fn back_report(title: Option<&str>, url: Option<&str>) -> (r: String)
    ensures
        r@ == "Went back.\nPage: "@ + or_default(title, "(no title)"@) + "\nURL: "@ + or_default(url, ""@),
{
    let mut v = str_chars("Went back.\nPage: ");
    push_or(&mut v, title, "(no title)");
    append_str(&mut v, "\nURL: ");
    push_or(&mut v, url, "");
    chars_to_string(v.as_slice())
}

/// The report of a wait that found its element.
pub fn wait_report(selector: &str) -> (r: String)
    ensures
        r@ == "Element found: "@ + selector@,
{
    let mut v = str_chars("Element found: ");
    append_str(&mut v, selector);
    chars_to_string(v.as_slice())
}

/// The scroll report, with the page position as the page rendered it.
pub fn scroll_report(scroll_x: &str, scroll_y: &str) -> (r: String)
    ensures
        r@ == "Scrolled. Position: scrollX="@ + scroll_x@ + ", scrollY="@ + scroll_y@,
{
    let mut v = str_chars("Scrolled. Position: scrollX=");
    append_str(&mut v, scroll_x);
    append_str(&mut v, ", scrollY=");
    append_str(&mut v, scroll_y);
    chars_to_string(v.as_slice())
}

/// The answer of a session start.
pub fn session_ready_message(mode: BrowserMode) -> (r: String)
    ensures
        r@ == "Browser session ready (mode: "@ + mode_name(mode)
            + "). Use browser_navigate / browser_click / etc. to drive it."@,
{
    let mut v = str_chars("Browser session ready (mode: ");
    append_str(&mut v, mode.as_str());
    append_str(&mut v, "). Use browser_navigate / browser_click / etc. to drive it.");
    chars_to_string(v.as_slice())
}

/// What the session status tool reports for an agent.
pub struct SessionStatus {
    pub agent_id: String,
    /// The mode of the agent's session, or `none`.
    pub active_mode: String,
    pub default_mode: &'static str,
    pub attach_port: u16,
    pub chromium_available: bool,
    pub chromium_path: Option<String>,
    /// `headless` and `headed` when Chromium can be spawned; `attach` always.
    pub available_modes: Vec<&'static str>,
}

/// The modes a session can be opened in on this host.
pub open spec fn available_modes_spec(chromium_available: bool) -> Seq<Seq<char>> {
    if chromium_available {
        seq!["headless"@, "headed"@, "attach"@]
    } else {
        seq!["attach"@]
    }
}

/// The session status of `agent_id`: its session's mode, what the host can open, and where.
pub fn session_status(
    agent_id: &str,
    active: Option<BrowserMode>,
    default_mode: BrowserMode,
    attach_port: u16,
    chromium_path: Option<String>,
) -> (r: SessionStatus)
    ensures
        r.agent_id@ == agent_id@,
        r.active_mode@ == match active {
            Some(m) => mode_name(m),
            None => "none"@,
        },
        r.default_mode@ == mode_name(default_mode),
        r.attach_port == attach_port,
        r.chromium_available == chromium_path is Some,
        r.chromium_path == chromium_path,
        r.available_modes@.map_values(|s: &'static str| s@) == available_modes_spec(chromium_path is Some),
{
    let active_mode = match active {
        Some(m) => owned(m.as_str()),
        None => owned("none"),
    };
    let chromium_available = chromium_path.is_some();
    let mut available_modes: Vec<&'static str> = Vec::new();
    if chromium_available {
        available_modes.push("headless");
        available_modes.push("headed");
    }
    available_modes.push("attach");
    assert(available_modes@.map_values(|s: &'static str| s@) =~= available_modes_spec(chromium_available));
    SessionStatus {
        agent_id: owned(agent_id),
        active_mode,
        default_mode: default_mode.as_str(),
        attach_port,
        chromium_available,
        chromium_path,
        available_modes,
    }
}

} // verus!
