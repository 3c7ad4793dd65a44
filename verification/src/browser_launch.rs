//! Launching a local Chromium for the browser tools: the command line, where to look for
//! the binary, how to tell that the process runs as root, and how the DevTools endpoint is
//! read back from Chromium's output.

use vstd::prelude::*;
use crate::text::{
    append_chars, append_str, chars_to_string, decimal, is_ws, owned, starts_with,
    starts_with_str, str_chars, string_views, sub_vec, trim, trim_range, u64_decimal, eq_str,
};
use crate::tool_recovery::{
    char_views, find_spec, find_str, lines, lines_of, split_all, split_chars,
};

verus! {

/// The platform the candidate paths are for.
#[derive(Debug, Clone, Copy, PartialEq, Eq, Structural)]
pub enum TargetOs {
    Windows,
    MacOs,
    Linux,
    Other,
}

/// The failure when no Chromium-based browser is found anywhere.
pub const CHROMIUM_NOT_FOUND: &'static str = "Chromium/Chrome not found. Install Chrome or set CHROME_PATH. Checked: Chrome, Chromium, Edge, Brave in standard locations.";

/// The fixed user agent the launched browser reports.
pub const LAUNCH_USER_AGENT: &'static str =
    "--user-agent=Mozilla/5.0 (Windows NT 10.0; Win64; x64) AppleWebKit/537.36 (KHTML, like Gecko) Chrome/131.0.0.0 Safari/537.36";

/// The command-line flags of a local launch.
pub open spec fn launch_args_spec(width: u32, height: u32, headless: bool, as_root: bool) -> Seq<Seq<char>> {
    let base = seq![
        "--remote-debugging-port=0"@,
        "--no-first-run"@,
        "--no-default-browser-check"@,
        "--disable-extensions"@,
        "--disable-background-networking"@,
        "--disable-sync"@,
        "--disable-translate"@,
        "--disable-features=TranslateUI"@,
        "--metrics-recording-only"@,
        "--window-size="@ + decimal(width as nat) + ","@ + decimal(height as nat),
        LAUNCH_USER_AGENT@,
        "about:blank"@,
    ];
    let h = if headless {
        seq!["--headless=new"@] + base + seq!["--disable-gpu"@]
    } else {
        base
    };
    if as_root {
        h.push("--no-sandbox"@)
    } else {
        h
    }
}

fn push_str(v: &mut Vec<String>, s: &str)
    ensures
        string_views(final(v)@) == string_views(old(v)@).push(s@),
{
    let ghost before = string_views(v@);
    v.push(owned(s));
    assert(string_views(v@) =~= before.push(s@));
}

/// The command-line flags for launching Chromium: DevTools on a free port, no first-run UI,
/// extensions, sync or translation, the viewport size and a fixed user agent, opening a
/// blank page; headless mode adds `--headless=new` first and `--disable-gpu` last, and a
/// process running as root adds `--no-sandbox`.
pub fn chromium_launch_args(viewport_width: u32, viewport_height: u32, headless: bool, as_root: bool) -> (r: Vec<String>)
    ensures
        string_views(r@) == launch_args_spec(viewport_width, viewport_height, headless, as_root),
{
    let mut v: Vec<String> = Vec::new();
    if headless {
        push_str(&mut v, "--headless=new");
    }
    push_str(&mut v, "--remote-debugging-port=0");
    push_str(&mut v, "--no-first-run");
    push_str(&mut v, "--no-default-browser-check");
    push_str(&mut v, "--disable-extensions");
    push_str(&mut v, "--disable-background-networking");
    push_str(&mut v, "--disable-sync");
    push_str(&mut v, "--disable-translate");
    push_str(&mut v, "--disable-features=TranslateUI");
    push_str(&mut v, "--metrics-recording-only");
    let mut ws = str_chars("--window-size=");
    let w = u64_decimal(viewport_width as u64);
    append_chars(&mut ws, w.as_slice());
    append_str(&mut ws, ",");
    let h = u64_decimal(viewport_height as u64);
    append_chars(&mut ws, h.as_slice());
    let wss = chars_to_string(ws.as_slice());
    let ghost before = string_views(v@);
    v.push(wss);
    assert(string_views(v@) =~= before.push(ws@));
    push_str(&mut v, LAUNCH_USER_AGENT);
    push_str(&mut v, "about:blank");
    if headless {
        push_str(&mut v, "--disable-gpu");
    }
    if as_root {
        push_str(&mut v, "--no-sandbox");
    }
    assert(string_views(v@) =~= launch_args_spec(viewport_width, viewport_height, headless, as_root));
    v
}

/// The only environment variables passed to the browser process.
pub fn launch_env_keys() -> (r: Vec<&'static str>)
    ensures
        r@.len() == 13,
{
    let mut v: Vec<&'static str> = Vec::new();
    v.push("PATH");
    v.push("HOME");
    v.push("USERPROFILE");
    v.push("SYSTEMROOT");
    v.push("TEMP");
    v.push("TMP");
    v.push("TMPDIR");
    v.push("APPDATA");
    v.push("LOCALAPPDATA");
    v.push("XDG_CONFIG_HOME");
    v.push("XDG_CACHE_HOME");
    v.push("DISPLAY");
    v.push("WAYLAND_DISPLAY");
    v
}

// ---------------------------------------------------------------------------
// Candidate binaries
// ---------------------------------------------------------------------------

/// Standard install locations of Chromium-based browsers on a platform; on Windows built
/// from the `ProgramFiles`, `ProgramFiles(x86)` and `LOCALAPPDATA` directories (empty ones
/// skipped).
pub open spec fn candidates_spec(os: TargetOs, pf: Seq<char>, pf86: Seq<char>, local: Seq<char>) -> Seq<Seq<char>> {
    match os {
        TargetOs::Windows => {
            let per = |d: Seq<char>| if d.len() == 0 {
                Seq::<Seq<char>>::empty()
            } else {
                seq![
                    d + "\\Google\\Chrome\\Application\\chrome.exe"@,
                    d + "\\Microsoft\\Edge\\Application\\msedge.exe"@,
                    d + "\\BraveSoftware\\Brave-Browser\\Application\\brave.exe"@,
                ]
            };
            let loc = if local.len() == 0 {
                Seq::<Seq<char>>::empty()
            } else {
                seq![
                    local + "\\Google\\Chrome\\Application\\chrome.exe"@,
                    local + "\\Microsoft\\Edge\\Application\\msedge.exe"@,
                ]
            };
            per(pf) + per(pf86) + loc
        },
        TargetOs::MacOs => seq![
            "/Applications/Google Chrome.app/Contents/MacOS/Google Chrome"@,
            "/Applications/Chromium.app/Contents/MacOS/Chromium"@,
            "/Applications/Microsoft Edge.app/Contents/MacOS/Microsoft Edge"@,
            "/Applications/Brave Browser.app/Contents/MacOS/Brave Browser"@,
        ],
        TargetOs::Linux => seq![
            "/usr/bin/google-chrome"@,
            "/usr/bin/google-chrome-stable"@,
            "/usr/bin/chromium"@,
            "/usr/bin/chromium-browser"@,
            "/snap/bin/chromium"@,
            "/usr/bin/microsoft-edge"@,
            "/usr/bin/brave-browser"@,
        ],
        TargetOs::Other => seq![],
    }
}

fn push_joined(v: &mut Vec<String>, dir: &str, tail: &str)
    ensures
        string_views(final(v)@) == string_views(old(v)@).push(dir@ + tail@),
{
    let mut c = str_chars(dir);
    append_str(&mut c, tail);
    let s = chars_to_string(c.as_slice());
    let ghost before = string_views(v@);
    v.push(s);
    assert(string_views(v@) =~= before.push(dir@ + tail@));
}

/// Platform-specific candidate paths for Chromium-based browsers.
pub fn chromium_candidates(os: TargetOs, program_files: &str, program_files_x86: &str, local_app_data: &str) -> (r: Vec<String>)
    ensures
        string_views(r@) == candidates_spec(os, program_files@, program_files_x86@, local_app_data@),
{
    let mut v: Vec<String> = Vec::new();
    match os {
        TargetOs::Windows => {
            if !program_files.is_empty() {
                push_joined(&mut v, program_files, "\\Google\\Chrome\\Application\\chrome.exe");
                push_joined(&mut v, program_files, "\\Microsoft\\Edge\\Application\\msedge.exe");
                push_joined(&mut v, program_files, "\\BraveSoftware\\Brave-Browser\\Application\\brave.exe");
            }
            if !program_files_x86.is_empty() {
                push_joined(&mut v, program_files_x86, "\\Google\\Chrome\\Application\\chrome.exe");
                push_joined(&mut v, program_files_x86, "\\Microsoft\\Edge\\Application\\msedge.exe");
                push_joined(&mut v, program_files_x86, "\\BraveSoftware\\Brave-Browser\\Application\\brave.exe");
            }
            if !local_app_data.is_empty() {
                push_joined(&mut v, local_app_data, "\\Google\\Chrome\\Application\\chrome.exe");
                push_joined(&mut v, local_app_data, "\\Microsoft\\Edge\\Application\\msedge.exe");
            }
        },
        TargetOs::MacOs => {
            push_str(&mut v, "/Applications/Google Chrome.app/Contents/MacOS/Google Chrome");
            push_str(&mut v, "/Applications/Chromium.app/Contents/MacOS/Chromium");
            push_str(&mut v, "/Applications/Microsoft Edge.app/Contents/MacOS/Microsoft Edge");
            push_str(&mut v, "/Applications/Brave Browser.app/Contents/MacOS/Brave Browser");
        },
        TargetOs::Linux => {
            push_str(&mut v, "/usr/bin/google-chrome");
            push_str(&mut v, "/usr/bin/google-chrome-stable");
            push_str(&mut v, "/usr/bin/chromium");
            push_str(&mut v, "/usr/bin/chromium-browser");
            push_str(&mut v, "/snap/bin/chromium");
            push_str(&mut v, "/usr/bin/microsoft-edge");
            push_str(&mut v, "/usr/bin/brave-browser");
        },
        TargetOs::Other => {},
    }
    assert(string_views(v@) =~= candidates_spec(os, program_files@, program_files_x86@, local_app_data@));
    v
}

/// The names looked up on `PATH` when no candidate exists, in order.
pub fn path_lookup_names() -> (r: Vec<&'static str>)
    ensures
        r@.len() == 5,
{
    let mut v: Vec<&'static str> = Vec::new();
    v.push("google-chrome");
    v.push("google-chrome-stable");
    v.push("chromium");
    v.push("chromium-browser");
    v.push("chrome");
    v
}

/// The error when a configured browser path does not exist.
pub fn configured_path_missing(path: &str) -> (r: String)
    ensures
        r@ == "Configured chromium_path not found: "@ + path@,
{
    let mut c = str_chars("Configured chromium_path not found: ");
    append_str(&mut c, path);
    chars_to_string(c.as_slice())
}

// ---------------------------------------------------------------------------
// Root detection
// ---------------------------------------------------------------------------

/// `str::split_whitespace`, built from the left: the words and whether the last character
/// was inside a word.
pub open spec fn words_state(s: Seq<char>) -> (Seq<Seq<char>>, bool)
    decreases s.len(),
{
    if s.len() == 0 {
        (seq![], false)
    } else {
        let (w, inw) = words_state(s.drop_last());
        let c = s.last();
        if is_ws(c) {
            (w, false)
        } else if inw && w.len() > 0 {
            (w.update(w.len() - 1, w.last().push(c)), true)
        } else {
            (w.push(seq![c]), true)
        }
    }
}

/// The whitespace-separated words of `s`.
pub open spec fn words(s: Seq<char>) -> Seq<Seq<char>> {
    words_state(s).0
}

fn words_exec(s: &[char]) -> (r: Vec<Vec<char>>)
    ensures
        char_views(r@) == words(s@),
{
    let mut out: Vec<Vec<char>> = Vec::new();
    let mut inw = false;
    let mut i: usize = 0;
    while i < s.len()
        invariant
            i <= s@.len(),
            (char_views(out@), inw) == words_state(s@.take(i as int)),
        decreases s.len() - i,
    {
        proof {
            assert(s@.take(i + 1).drop_last() =~= s@.take(i as int));
            assert(s@.take(i + 1).last() == s@[i as int]);
        }
        let c = s[i];
        let ghost before = char_views(out@);
        if crate::text::char_is_ws(c) {
            inw = false;
        } else if inw && out.len() > 0 {
            let k = out.len() - 1;
            let mut last = out.pop().unwrap();
            last.push(c);
            out.push(last);
            assert(char_views(out@) =~= before.update(k as int, before[k as int].push(c)));
        } else {
            let mut w: Vec<char> = Vec::new();
            w.push(c);
            out.push(w);
            assert(char_views(out@) =~= before.push(seq![c]));
            inw = true;
        }
        i = i + 1;
    }
    assert(s@.take(s@.len() as int) =~= s@);
    out
}

/// The effective uid's verdict from the first `Uid:` line of a process status that has a
/// second field: whether that field is `0`.
pub open spec fn uid_verdict(ls: Seq<Seq<char>>) -> Option<bool>
    decreases ls.len(),
{
    if ls.len() == 0 {
        None
    } else {
        let l = ls[0];
        if starts_with(l, "Uid:"@) && words(l.skip(4)).len() >= 2 {
            Some(words(l.skip(4))[1] == "0"@)
        } else {
            uid_verdict(ls.drop_first())
        }
    }
}

/// Running as root: by the effective uid in `/proc/self/status` when it can be read and
/// names one, else when `HOME` is `/root`.
pub open spec fn running_as_root(status: Option<Seq<char>>, home: Option<Seq<char>>) -> bool {
    let v = match status {
        Some(s) => uid_verdict(lines_of(s)),
        None => None,
    };
    match v {
        Some(b) => b,
        None => home == Some("/root"@),
    }
}

/// Whether the process runs as root, from the text of `/proc/self/status` (when readable)
/// and the value of `HOME` (when set).
pub fn is_running_as_root(proc_status: Option<&str>, home: Option<&str>) -> (r: bool)
    ensures
        r == running_as_root(
            match proc_status {
                Some(s) => Some(s@),
                None => None,
            },
            match home {
                Some(h) => Some(h@),
                None => None,
            },
        ),
{
    proof {
        reveal_strlit("Uid:");
        reveal_strlit("0");
        reveal_strlit("/root");
    }
    match proc_status {
        Some(s) => {
            let c = str_chars(s);
            let ls = lines(c.as_slice());
            let ghost lv = char_views(ls@);
            let mut i: usize = 0;
            assert(lv.skip(0) =~= lv);
            while i < ls.len()
                invariant
                    i <= ls@.len(),
                    lv == char_views(ls@),
                    lv == lines_of(s@),
                    proc_status == Some(s),
                    uid_verdict(lv.skip(i as int)) == uid_verdict(lv),
                decreases ls.len() - i,
            {
                proof {
                    reveal_strlit("Uid:");
                    reveal_strlit("0");
                    assert(lv.skip(i as int)[0] == ls@[i as int]@);
                    assert(lv.skip(i as int).drop_first() =~= lv.skip(i + 1));
                }
                let l = ls[i].as_slice();
                if starts_with_str(l, "Uid:") {
                    let rest = sub_vec(l, 4, l.len());
                    proof {
                        assert(rest@ =~= ls@[i as int]@.skip(4));
                    }
                    let ws = words_exec(rest.as_slice());
                    if ws.len() >= 2 {
                        proof {
                            assert(char_views(ws@)[1] == ws@[1]@);
                            assert(lv.skip(i as int)[0] == ls@[i as int]@);
                            assert(starts_with(ls@[i as int]@, "Uid:"@));
                            assert(words(ls@[i as int]@.skip(4)) == char_views(ws@));
                            assert(uid_verdict(lv.skip(i as int)) == Some(ws@[1]@ == "0"@));
                        }
                        return eq_str(ws[1].as_slice(), "0");
                    }
                }
                i = i + 1;
            }
            assert(lv.skip(i as int) =~= Seq::<Seq<char>>::empty());
        },
        None => {},
    }
    match home {
        Some(h) => eq_str(str_chars(h).as_slice(), "/root"),
        None => false,
    }
}

// ---------------------------------------------------------------------------
// DevTools endpoint
// ---------------------------------------------------------------------------

/// The segment of `s` after the first occurrence of `sep` and before the next one.
pub open spec fn second_segment(s: Seq<char>, sep: Seq<char>) -> Option<Seq<char>> {
    match find_spec(s, sep, 0) {
        Some(i) => {
            let rest = s.skip(i + sep.len());
            Some(
                match find_spec(rest, sep, 0) {
                    Some(j) => rest.take(j),
                    None => rest,
                },
            )
        },
        None => None,
    }
}

fn second_segment_exec(s: &[char], sep: &str) -> (r: Option<Vec<char>>)
    requires
        sep@.len() > 0,
    ensures
        match r {
            Some(v) => second_segment(s@, sep@) == Some(v@),
            None => second_segment(s@, sep@) is None,
        },
{
    let sv = str_chars(sep);
    let m = sv.len();
    match find_str(s, 0, sep) {
        Some(i) => {
            let n = s.len();
            assert(i + m <= n);
            let rest = sub_vec(s, i + m, s.len());
            assert(rest@ =~= s@.skip(i + sep@.len()));
            match find_str(rest.as_slice(), 0, sep) {
                Some(j) => {
                    let seg = sub_vec(rest.as_slice(), 0, j);
                    assert(seg@ =~= rest@.take(j as int));
                    Some(seg)
                },
                None => Some(rest),
            }
        },
        None => None,
    }
}

/// The DevTools WebSocket URL on a line of Chromium's output, when the line announces it.
pub open spec fn devtools_url(line: Seq<char>) -> Option<Seq<char>> {
    match second_segment(line, "DevTools listening on "@) {
        Some(seg) => Some(trim(seg)),
        None => None,
    }
}

/// The DevTools WebSocket URL announced on a line of Chromium's output, if any.
pub fn devtools_url_from_line(line: &str) -> (r: Option<String>)
    ensures
        match r {
            Some(u) => devtools_url(line@) == Some(u@),
            None => devtools_url(line@) is None,
        },
{
    proof {
        reveal_strlit("DevTools listening on ");
    }
    let c = str_chars(line);
    match second_segment_exec(c.as_slice(), "DevTools listening on ") {
        Some(seg) => {
            let (a, b) = trim_range(seg.as_slice(), 0, seg.len());
            assert(seg@.subrange(0, seg@.len() as int) =~= seg@);
            let t = sub_vec(seg.as_slice(), a, b);
            Some(chars_to_string(t.as_slice()))
        },
        None => None,
    }
}

/// The port of a DevTools WebSocket URL: after the scheme, between the first `:` and the
/// next, up to the first `/`.
pub open spec fn ws_port(url: Seq<char>) -> Option<Seq<char>> {
    match second_segment(url, "://"@) {
        Some(hostpart) => {
            let parts = split_all(hostpart, ':');
            if parts.len() >= 2 {
                Some(split_all(parts[1], '/')[0])
            } else {
                None
            }
        },
        None => None,
    }
}

/// The port of a DevTools WebSocket URL.
pub fn cdp_port_from_ws_url(ws_url: &str) -> (r: Option<String>)
    ensures
        match r {
            Some(p) => ws_port(ws_url@) == Some(p@),
            None => ws_port(ws_url@) is None,
        },
{
    proof {
        reveal_strlit("://");
    }
    let c = str_chars(ws_url);
    match second_segment_exec(c.as_slice(), "://") {
        Some(host) => {
            let parts = split_chars(host.as_slice(), ':');
            if parts.len() >= 2 {
                assert(char_views(parts@)[1] == parts@[1]@);
                let sub = split_chars(parts[1].as_slice(), '/');
                proof {
                    crate::tool_recovery::lemma_split_all_nonempty(parts@[1]@, '/');
                }
                assert(char_views(sub@)[0] == sub@[0]@);
                Some(chars_to_string(sub[0].as_slice()))
            } else {
                None
            }
        },
        None => None,
    }
}

/// The target list URL of a DevTools port on the local machine.
pub fn cdp_list_url(port: &str) -> (r: String)
    ensures
        r@ == "http://127.0.0.1:"@ + port@ + "/json/list"@,
{
    let mut c = str_chars("http://127.0.0.1:");
    append_str(&mut c, port);
    append_str(&mut c, "/json/list");
    chars_to_string(c.as_slice())
}

/// The error when no browser listens on the attach port.
pub open spec fn attach_unreachable_text(port: u16) -> Seq<char> {
    "browser_mode=attach: no Chrome reachable on 127.0.0.1:"@ + decimal(port as nat)
        + ". Start Chrome yourself with: `chrome --remote-debugging-port="@ + decimal(port as nat)
        + "` (or set browser.attach_port). The browser must be running before the agent attaches."@
}

/// The error when no browser listens on the attach port.
pub fn attach_unreachable_message(port: u16) -> (r: String)
    ensures
        r@ == attach_unreachable_text(port),
{
    let d = u64_decimal(port as u64);
    let mut c = str_chars("browser_mode=attach: no Chrome reachable on 127.0.0.1:");
    append_chars(&mut c, d.as_slice());
    append_str(&mut c, ". Start Chrome yourself with: `chrome --remote-debugging-port=");
    append_chars(&mut c, d.as_slice());
    append_str(&mut c, "` (or set browser.attach_port). The browser must be running before the agent attaches.");
    chars_to_string(c.as_slice())
}

} // verus!
