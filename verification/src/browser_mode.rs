//! Browser-session decisions that do not touch the browser: how a session is opened
//! (mode strings and their aliases), the commands a session accepts, and the rewriting of
//! JavaScript snippets before `Runtime.evaluate`.

use vstd::prelude::*;
use crate::text::{
    trim_start, trim_end, append_chars, append_str, ascii_lower, chars_to_string, contains,
    eq_str, lower_chars, starts_with, starts_with_str, str_chars, sub_vec, trim, trim_range,
    lemma_lower_trimmed, lemma_trim_ends, lemma_trim_idempotent,
};

verus! {

/// How a browser session is opened.
#[derive(Debug, Clone, Copy, PartialEq, Eq, Structural)]
pub enum BrowserMode {
    /// Spawn a new Chromium with `--headless=new`. No visible window.
    Headless,
    /// Spawn a new Chromium with a visible window.
    Headed,
    /// Connect to a Chrome the user started with `--remote-debugging-port=<port>`.
    Attach,
}

/// The lowercase name of a mode, as used in tool arguments and configuration.
pub open spec fn mode_name(m: BrowserMode) -> Seq<char> {
    match m {
        BrowserMode::Headless => "headless"@,
        BrowserMode::Headed => "headed"@,
        BrowserMode::Attach => "attach"@,
    }
}

/// The mode a user-supplied string stands for, after trimming and ASCII lowercasing.
pub open spec fn parsed_mode(raw: Seq<char>) -> Option<BrowserMode> {
    let s = ascii_lower(trim(raw));
    if s == "headless"@ || s.len() == 0 {
        Some(BrowserMode::Headless)
    } else if s == "headed"@ || s == "headful"@ || s == "visible"@ || s == "windowed"@ || s
        == "gui"@ {
        Some(BrowserMode::Headed)
    } else if s == "attach"@ || s == "connect"@ || s == "user_chrome"@ || s == "existing"@ {
        Some(BrowserMode::Attach)
    } else {
        None
    }
}

impl BrowserMode {
    /// Lowercase string form used in tool args / config TOML.
    pub fn as_str(&self) -> (r: &'static str)
        ensures
            r@ == mode_name(*self),
    {
        match self {
            BrowserMode::Headless => "headless",
            BrowserMode::Headed => "headed",
            BrowserMode::Attach => "attach",
        }
    }

    /// Parse a user-supplied mode string; `None` for unrecognized input. The empty string
    /// means headless.
    pub fn parse(raw: &str) -> (r: Option<BrowserMode>)
        ensures
            r == parsed_mode(raw@),
    {
        let v = str_chars(raw);
        let (a, b) = trim_range(v.as_slice(), 0, v.len());
        assert(v@.subrange(0, v@.len() as int) =~= v@);
        let t = sub_vec(v.as_slice(), a, b);
        let lv = lower_chars(t.as_slice());
        let s = lv.as_slice();
        if eq_str(s, "headless") || s.len() == 0 {
            Some(BrowserMode::Headless)
        } else if eq_str(s, "headed") || eq_str(s, "headful") || eq_str(s, "visible") || eq_str(
            s,
            "windowed",
        ) || eq_str(s, "gui") {
            Some(BrowserMode::Headed)
        } else if eq_str(s, "attach") || eq_str(s, "connect") || eq_str(s, "user_chrome")
            || eq_str(s, "existing") {
            Some(BrowserMode::Attach)
        } else {
            None
        }
    }

    /// The default mode of a browser configuration: its `default_mode` string when that
    /// parses, otherwise the legacy `headless` flag.
    pub fn from_config(config: &BrowserModeConfig) -> (r: BrowserMode)
        ensures
            r == match parsed_mode(config.default_mode@) {
                Some(m) => m,
                None => if config.headless {
                    BrowserMode::Headless
                } else {
                    BrowserMode::Headed
                },
            },
    {
        match Self::parse(config.default_mode.as_str()) {
            Some(m) => m,
            None => if config.headless {
                BrowserMode::Headless
            } else {
                BrowserMode::Headed
            },
        }
    }
}

/// The part of the browser configuration that decides the default mode.
#[derive(Debug, Clone)]
pub struct BrowserModeConfig {
    /// Preferred mode string (`headless`, `headed`, `attach` or an alias).
    pub default_mode: String,
    /// Legacy flag, consulted when `default_mode` does not parse.
    pub headless: bool,
}

/// Every mode's name parses back to that mode.
pub proof fn lemma_mode_name_roundtrip(m: BrowserMode)
    ensures
        parsed_mode(mode_name(m)) == Some(m),
{
    reveal_strlit("headless");
    reveal_strlit("headed");
    reveal_strlit("attach");
    reveal_strlit("headful");
    reveal_strlit("visible");
    reveal_strlit("windowed");
    reveal_strlit("gui");
    let s = mode_name(m);
    assert(trim_start(s) == s);
    assert(trim_end(s) == s);
    assert(ascii_lower(s) =~= s);
    assert(ascii_lower(trim(s)) == s);
    match m {
        BrowserMode::Headless => {},
        BrowserMode::Headed => {
            assert(s != "headless"@);
        },
        BrowserMode::Attach => {
            assert(s != "headless"@);
            assert(s != "headed"@);
            assert(s != "headful"@);
            assert(s != "visible"@);
            assert(s != "windowed"@);
            assert(s != "gui"@);
        },
    }
}

/// Surrounding whitespace and ASCII case never change which mode a string stands for.
pub proof fn law_parse_ignores_space_and_case(raw: Seq<char>)
    ensures
        parsed_mode(raw) == parsed_mode(ascii_lower(trim(raw))),
{
    lemma_lower_trimmed(raw);
}

// ---------------------------------------------------------------------------
// The `mode` argument of the session tools
// ---------------------------------------------------------------------------

/// Name for what `format!("{:?}", s)` gives for a string slice: the quoted, escaped form.
pub uninterp spec fn str_debug(s: Seq<char>) -> Seq<char>;

/// `format!("{s:?}")`: std's `Debug` rendering of a string slice (quoted, with escapes).
#[verifier::external_body]
fn debug_quoted(s: &str) -> (r: String)
    ensures
        r@ == str_debug(s@),
{
    format!("{s:?}")
}

/// The message for a `mode` argument that names no mode.
pub open spec fn invalid_mode_message(raw: Seq<char>) -> Seq<char> {
    "Invalid browser mode: "@ + str_debug(raw) + ". Use one of \"headless\", \"headed\", \"attach\"."@
}

/// What the `mode` argument (the string under the `mode` key, if there is one) asks for:
/// no preference when absent or blank, the parsed mode, or an error for an unknown name.
pub open spec fn mode_arg(raw: Option<Seq<char>>) -> Result<Option<BrowserMode>, Seq<char>> {
    match raw {
        Some(s) => if trim(s).len() == 0 {
            Ok(None)
        } else {
            match parsed_mode(s) {
                Some(m) => Ok(Some(m)),
                None => Err(invalid_mode_message(s)),
            }
        },
        None => Ok(None),
    }
}

/// Parses the optional `mode` argument of a browser tool call.
pub fn parse_mode_arg(raw: Option<&str>) -> (r: Result<Option<BrowserMode>, String>)
    ensures
        match (r, mode_arg(match raw { Some(s) => Some(s@), None => None })) {
            (Ok(a), Ok(b)) => a == b,
            (Err(e), Err(m)) => e@ == m,
            _ => false,
        },
{
    let s = match raw {
        Some(s) => s,
        None => return Ok(None),
    };
    let v = str_chars(s);
    let (a, b) = trim_range(v.as_slice(), 0, v.len());
    assert(v@.subrange(0, v@.len() as int) =~= v@);
    if a == b {
        return Ok(None);
    }
    match BrowserMode::parse(s) {
        Some(m) => Ok(Some(m)),
        None => {
            let mut msg = str_chars("Invalid browser mode: ");
            let q = debug_quoted(s);
            append_str(&mut msg, q.as_str());
            append_str(&mut msg, ". Use one of \"headless\", \"headed\", \"attach\".");
            Err(chars_to_string(msg.as_slice()))
        },
    }
}

// ---------------------------------------------------------------------------
// JavaScript for `Runtime.evaluate`
// ---------------------------------------------------------------------------

/// `t` begins a `return` statement: `return ` or `return;`, or is exactly `return`.
pub open spec fn return_at(t: Seq<char>) -> bool {
    starts_with(t, "return "@) || starts_with(t, "return;"@) || t == "return"@
}

/// Scanning `s` from position `i` with brace depth `depth`: some `r` at depth zero begins a
/// `return` statement. `}` never takes the depth below zero.
pub open spec fn top_level_return_from(s: Seq<char>, i: int, depth: int) -> bool
    decreases s.len() - i,
{
    if i < 0 || i >= s.len() {
        false
    } else if s[i] == '{' {
        top_level_return_from(s, i + 1, depth + 1)
    } else if s[i] == '}' {
        top_level_return_from(
            s,
            i + 1,
            if depth > 0 {
                depth - 1
            } else {
                0
            },
        )
    } else if s[i] == 'r' && depth == 0 && return_at(s.skip(i)) {
        true
    } else {
        top_level_return_from(s, i + 1, depth)
    }
}

/// `expr` has a `return` statement outside every brace pair (a character scan, not a parse).
pub open spec fn has_top_level_return(expr: Seq<char>) -> bool {
    top_level_return_from(expr, 0, 0)
}

/// True if `expr` contains a `return` statement at brace depth 0.
pub fn contains_top_level_return(expr: &str) -> (r: bool)
    ensures
        r == has_top_level_return(expr@),
{
    let v = str_chars(expr);
    let s = v.as_slice();
    let mut depth: u64 = 0;
    let mut i: usize = 0;
    while i < s.len()
        invariant
            i <= s@.len(),
            depth <= i,
            top_level_return_from(s@, i as int, depth as int) == has_top_level_return(expr@),
            s@ == expr@,
        decreases s.len() - i,
    {
        let c = s[i];
        if c == '{' {
            depth = depth + 1;
        } else if c == '}' {
            if depth > 0 {
                depth = depth - 1;
            }
        } else if c == 'r' && depth == 0 {
            let rest = sub_vec(s, i, s.len());
            assert(rest@ =~= s@.skip(i as int));
            if starts_with_str(rest.as_slice(), "return ") || starts_with_str(
                rest.as_slice(),
                "return;",
            ) || eq_str(rest.as_slice(), "return") {
                return true;
            }
        }
        i = i + 1;
    }
    false
}

/// The expression that is sent for evaluation: trimmed, and wrapped in a function that is
/// called at once when it holds a top-level `return` and is not already such a wrapper.
pub open spec fn normalized_js(expression: Seq<char>) -> Seq<char> {
    let t = trim(expression);
    if starts_with(t, "(function"@) || starts_with(t, "(() =>"@) || starts_with(t, "(async "@) {
        t
    } else if has_top_level_return(t) {
        "(function() { "@ + t + " })()"@
    } else {
        t
    }
}

/// Normalizing an already normalized expression changes nothing.
pub proof fn law_normalized_js_idempotent(expression: Seq<char>)
    ensures
        normalized_js(normalized_js(expression)) == normalized_js(expression),
{
    let t = trim(expression);
    lemma_trim_idempotent(expression);
    if !(starts_with(t, "(function"@) || starts_with(t, "(() =>"@) || starts_with(t, "(async "@))
        && has_top_level_return(t) {
        let w = "(function() { "@ + t + " })()"@;
        reveal_strlit("(function() { ");
        reveal_strlit(" })()");
        reveal_strlit("(function");
        assert(w[0] == '(');
        assert(w.last() == ')');
        assert(trim_start(w) == w);
        assert(trim_end(w) == w);
        assert(trim(w) == w);
        assert(w.subrange(0, 9) =~= "(function"@);
        assert(starts_with(w, "(function"@));
    }
}

/// `Runtime.evaluate` executes expressions, not statements: function-body style code with
/// a top-level `return` is wrapped in an immediately invoked function.
pub fn normalize_js_for_eval(expression: &str) -> (r: String)
    ensures
        r@ == normalized_js(expression@),
{
    let v = str_chars(expression);
    let (a, b) = trim_range(v.as_slice(), 0, v.len());
    assert(v@.subrange(0, v@.len() as int) =~= v@);
    let t = sub_vec(v.as_slice(), a, b);
    let ts = t.as_slice();
    if starts_with_str(ts, "(function") || starts_with_str(ts, "(() =>") || starts_with_str(
        ts,
        "(async ",
    ) {
        return chars_to_string(ts);
    }
    let tstr = chars_to_string(ts);
    if contains_top_level_return(tstr.as_str()) {
        let mut out = str_chars("(function() { ");
        append_chars(&mut out, ts);
        append_str(&mut out, " })()");
        return chars_to_string(out.as_slice());
    }
    tstr
}

/// Command sent to the browser.
#[derive(Debug, Clone)]
pub enum BrowserCommand {
    Navigate { url: String },
    Click { selector: String },
    Type { selector: String, text: String },
    Screenshot,
    ReadPage,
    Close,
    Scroll { direction: String, amount: i32 },
    Wait { selector: String, timeout_ms: u64 },
    RunJs { expression: String },
    Back,
}

} // verus!
