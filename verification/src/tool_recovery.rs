//! Recovery of tool calls that a model wrote as text instead of as structured tool use.
//!
//! The recognised forms are tag pairs (`<function=NAME>..</function>`,
//! `<function>NAME{..}</function>`, `<tool>..</tool>`, `[TOOL_CALL]..[/TOOL_CALL]`,
//! `<tool_call>..</tool_call>`, `<|plugin|>..<|endofblock|>`, `<tool_use>..</tool_use>`), XML
//! attribute calls, markdown code blocks, backtick spans, ReAct `Action:` / `Action Input:`
//! lines, a tool name followed by a JSON line, and, when nothing else matched, bare JSON
//! objects. Only names of available tools are accepted; a call already recovered (same name,
//! same input) is not recovered twice.
//!
//! JSON is handled by `serde_json`: a payload is kept as the compact text of the parsed
//! value (its canonical form), so two payloads are the same value exactly when their
//! canonical texts are equal.

use vstd::prelude::*;
use crate::agent_policy::{has_name, names_contain, unescape_xml_entities, unescaped_xml};
use crate::pattern::{capture_pairs, captures_view, regex_captures};
use crate::text::{
    append_chars, append_str, chars_to_string, eq_str, is_ws, match_at, matches_at, owned,
    str_chars, sub_vec, trim, trim_start, trim_start_from, starts_with, contains, contains_str,
    starts_with_str, trim_chars, lemma_trim_start_suffix,
};

verus! {

// ---------------------------------------------------------------------------
// Searching and splitting
// ---------------------------------------------------------------------------

/// The first position at or after `from` where `p` (non-empty) occurs in `s`.
pub open spec fn find_spec(s: Seq<char>, p: Seq<char>, from: int) -> Option<int>
    decreases s.len() - from,
{
    if from < 0 || p.len() == 0 || from + p.len() > s.len() {
        None
    } else if matches_at(s, from, p) {
        Some(from)
    } else {
        find_spec(s, p, from + 1)
    }
}

/// A match found by `find_spec` lies at or after `from` and fits in `s`.
pub proof fn lemma_find_spec_bounds(s: Seq<char>, p: Seq<char>, from: int)
    ensures
        find_spec(s, p, from) matches Some(i) ==> from <= i && i + p.len() <= s.len() && matches_at(
            s,
            i,
            p,
        ),
    decreases s.len() - from,
{
    if !(from < 0 || p.len() == 0 || from + p.len() > s.len()) && !matches_at(s, from, p) {
        lemma_find_spec_bounds(s, p, from + 1);
    }
}

/// First position at or after `from` where the non-empty `p` occurs.
pub fn find_next(s: &[char], from: usize, p: &[char]) -> (r: Option<usize>)
    ensures
        match r {
            Some(i) => find_spec(s@, p@, from as int) == Some(i as int),
            None => find_spec(s@, p@, from as int) is None,
        },
        r matches Some(i) ==> from <= i && i + p@.len() <= s@.len(),
{
    proof {
        lemma_find_spec_bounds(s@, p@, from as int);
    }
    if p.len() == 0 || from > s.len() || p.len() > s.len() - from {
        return None;
    }
    let mut i = from;
    while p.len() <= s.len() - i
        invariant
            from <= i <= s@.len(),
            p@.len() > 0,
            find_spec(s@, p@, i as int) == find_spec(s@, p@, from as int),
        decreases s.len() - i,
    {
        if match_at(s, i, p) {
            return Some(i);
        }
        i = i + 1;
    }
    None
}

/// `find_next` with a literal pattern.
pub fn find_str(s: &[char], from: usize, p: &str) -> (r: Option<usize>)
    ensures
        match r {
            Some(i) => find_spec(s@, p@, from as int) == Some(i as int),
            None => find_spec(s@, p@, from as int) is None,
        },
        r matches Some(i) ==> from <= i && i + p@.len() <= s@.len(),
{
    let pv = str_chars(p);
    find_next(s, from, pv.as_slice())
}

/// `str::split` by a character: every piece, empty ones included (one piece for `""`).
pub open spec fn split_all(s: Seq<char>, c: char) -> Seq<Seq<char>>
    decreases s.len(),
{
    if s.len() == 0 {
        seq![Seq::<char>::empty()]
    } else {
        let init = split_all(s.drop_last(), c);
        if s.last() == c {
            init.push(Seq::<char>::empty())
        } else {
            init.update(init.len() - 1, init.last().push(s.last()))
        }
    }
}

/// `split_all` never yields an empty list of pieces.
pub proof fn lemma_split_all_nonempty(s: Seq<char>, c: char)
    ensures
        split_all(s, c).len() >= 1,
    decreases s.len(),
{
    if s.len() > 0 {
        lemma_split_all_nonempty(s.drop_last(), c);
    }
}

/// The views of a list of character vectors.
pub open spec fn char_views(v: Seq<Vec<char>>) -> Seq<Seq<char>> {
    v.map_values(|x: Vec<char>| x@)
}

/// The pieces of `s` between occurrences of `c`.
pub fn split_chars(s: &[char], c: char) -> (r: Vec<Vec<char>>)
    ensures
        char_views(r@) == split_all(s@, c),
{
    let mut done: Vec<Vec<char>> = Vec::new();
    let mut cur: Vec<char> = Vec::new();
    let mut i: usize = 0;
    while i < s.len()
        invariant
            i <= s@.len(),
            char_views(done@).push(cur@) == split_all(s@.take(i as int), c),
        decreases s.len() - i,
    {
        let x = s[i];
        proof {
            assert(s@.take(i + 1).drop_last() =~= s@.take(i as int));
            assert(s@.take(i + 1).last() == x);
            lemma_split_all_nonempty(s@.take(i as int), c);
        }
        if x == c {
            let ghost old_done = done@;
            let ghost old_cur = cur@;
            done.push(cur);
            cur = Vec::new();
            proof {
                assert(char_views(done@) =~= char_views(old_done).push(old_cur));
                assert(char_views(done@).push(cur@) =~= split_all(s@.take(i as int), c).push(
                    Seq::<char>::empty(),
                ));
            }
        } else {
            let ghost old_cur = cur@;
            cur.push(x);
            proof {
                let init = split_all(s@.take(i as int), c);
                assert(init.last() == old_cur);
                assert(char_views(done@).push(cur@) =~= init.update(
                    init.len() - 1,
                    init.last().push(x),
                ));
            }
        }
        i = i + 1;
    }
    assert(s@.take(s@.len() as int) =~= s@);
    done.push(cur);
    done
}

/// A line without the `\r` of a `\r\n` ending.
pub open spec fn strip_cr(l: Seq<char>) -> Seq<char> {
    if l.len() > 0 && l.last() == '\r' {
        l.drop_last()
    } else {
        l
    }
}

/// `str::lines`: pieces between `\n`, each that ended in `\n` without one trailing `\r`; a
/// final piece is kept only when non-empty.
pub open spec fn lines_of(s: Seq<char>) -> Seq<Seq<char>> {
    let p = split_all(s, '\n');
    let body = p.drop_last().map_values(|l: Seq<char>| strip_cr(l));
    if p.last().len() > 0 {
        body.push(p.last())
    } else {
        body
    }
}

/// The lines of `s`.
pub fn lines(s: &[char]) -> (r: Vec<Vec<char>>)
    ensures
        char_views(r@) == lines_of(s@),
{
    let parts = split_chars(s, '\n');
    proof {
        lemma_split_all_nonempty(s@, '\n');
    }
    let n = parts.len();
    let mut out: Vec<Vec<char>> = Vec::new();
    let mut i: usize = 0;
    while i + 1 < n
        invariant
            n == parts@.len(),
            n >= 1,
            i + 1 <= n,
            char_views(parts@) == split_all(s@, '\n'),
            char_views(out@) == split_all(s@, '\n').take(i as int).map_values(
                |l: Seq<char>| strip_cr(l),
            ),
        decreases n - i,
    {
        let l = &parts[i];
        let ln = l.len();
        let piece = if ln > 0 && l[ln - 1] == '\r' {
            sub_vec(l.as_slice(), 0, ln - 1)
        } else {
            sub_vec(l.as_slice(), 0, ln)
        };
        let ghost old_out = out@;
        proof {
            assert(parts@[i as int]@ == split_all(s@, '\n')[i as int]);
            assert(l@.subrange(0, ln as int) =~= l@);
            assert(l@.subrange(0, ln - 1) =~= l@.drop_last());
        }
        out.push(piece);
        proof {
            assert(char_views(out@) =~= char_views(old_out).push(piece@));
            assert(split_all(s@, '\n').take(i + 1).map_values(|l: Seq<char>| strip_cr(l))
                =~= split_all(s@, '\n').take(i as int).map_values(|l: Seq<char>| strip_cr(l)).push(
                strip_cr(split_all(s@, '\n')[i as int]),
            ));
        }
        i = i + 1;
    }
    assert(split_all(s@, '\n').take(i as int) =~= split_all(s@, '\n').drop_last());
    let last = &parts[n - 1];
    assert(last@ == split_all(s@, '\n').last());
    if last.len() > 0 {
        let ghost old_out = out@;
        out.push(sub_vec(last.as_slice(), 0, last.len()));
        proof {
            assert(last@.subrange(0, last@.len() as int) =~= last@);
            assert(char_views(out@) =~= char_views(old_out).push(last@));
        }
    }
    out
}

// ---------------------------------------------------------------------------
// JSON through serde_json
// ---------------------------------------------------------------------------

/// Name for the canonical (compact) text of the JSON value `serde_json` parses from `text`,
/// or `None` when it does not parse.
pub uninterp spec fn canonical_json(text: Seq<char>) -> Option<Seq<char>>;

/// Name for the fields of the JSON object `serde_json` parses from `text`: each key, the
/// value's string content when it is a string, and the value's canonical text; `None` when
/// `text` is not a JSON object.
pub uninterp spec fn json_object_fields(text: Seq<char>) -> Option<Seq<(Seq<char>, Option<Seq<char>>, Seq<char>)>>;

/// A lowercase hexadecimal digit.
pub open spec fn hex_digit(n: u32) -> char {
    if n < 10 {
        (48 + n) as char
    } else {
        (87 + n) as char
    }
}

/// How `serde_json` writes one character inside a string literal: a double quote and a
/// backslash get a backslash before them; backspace, tab, line feed, form feed and carriage
/// return become a backslash and `b`, `t`, `n`, `f`, `r`; the other control characters below
/// U+0020 become a backslash, `u00` and two lowercase hex digits; every other character is
/// written as itself.
pub open spec fn json_escape_char(c: char) -> Seq<char> {
    let u = c as u32;
    if c == '"' {
        seq!['\\', '"']
    } else if c == '\\' {
        seq!['\\', '\\']
    } else if u == 8 {
        seq!['\\', 'b']
    } else if u == 9 {
        seq!['\\', 't']
    } else if u == 10 {
        seq!['\\', 'n']
    } else if u == 12 {
        seq!['\\', 'f']
    } else if u == 13 {
        seq!['\\', 'r']
    } else if u < 32 {
        seq!['\\', 'u', '0', '0', hex_digit(u / 16), hex_digit(u % 16)]
    } else {
        seq![c]
    }
}

/// The characters of `s`, each as `serde_json` writes it inside a string literal.
pub open spec fn json_escaped(s: Seq<char>) -> Seq<char>
    decreases s.len(),
{
    if s.len() == 0 {
        seq![]
    } else {
        json_escaped(s.drop_last()) + json_escape_char(s.last())
    }
}

/// The JSON string literal `serde_json` writes for `s`: the escaped characters in double
/// quotes.
pub open spec fn json_string(s: Seq<char>) -> Seq<char> {
    seq!['"'] + json_escaped(s) + seq!['"']
}

/// Parses `text` with `serde_json::from_str` into a `Value` and renders it back compactly.
#[verifier::external_body]
fn json_canonical(text: &str) -> (r: Option<String>)
    ensures
        match r {
            Some(t) => canonical_json(text@) == Some(t@),
            None => canonical_json(text@) is None,
        },
{
    serde_json::from_str::<serde_json::Value>(text).ok().map(|v| v.to_string())
}

/// The views of object fields.
pub open spec fn fields_view(v: Seq<(String, Option<String>, String)>) -> Seq<(Seq<char>, Option<Seq<char>>, Seq<char>)> {
    v.map_values(
        |f: (String, Option<String>, String)|
            (
                f.0@,
                match f.1 {
                    Some(x) => Some(x@),
                    None => None,
                },
                f.2@,
            ),
    )
}

/// Parses `text` with `serde_json::from_str`; when the value is an object (`Value::as_object`),
/// lists its fields as key, string content (`Value::as_str`) and compact rendering.
#[verifier::external_body]
fn json_fields(text: &str) -> (r: Option<Vec<(String, Option<String>, String)>>)
    ensures
        match r {
            Some(fs) => json_object_fields(text@) == Some(fields_view(fs@)),
            None => json_object_fields(text@) is None,
        },
{
    let v = serde_json::from_str::<serde_json::Value>(text).ok()?;
    let obj = v.as_object()?;
    Some(obj.iter().map(|(k, x)| (k.clone(), x.as_str().map(|s| s.to_string()), x.to_string())).collect())
}

/// Name for whether `a` and `b` both parse (`serde_json::from_str`) to JSON values that are
/// equal (`Value`'s `==`).
pub uninterp spec fn json_same_value(a: Seq<char>, b: Seq<char>) -> bool;

/// Parses `a` and `b` with `serde_json::from_str` and compares the two `Value`s with `==`;
/// `false` when either does not parse. The contract names the result.
#[verifier::external_body]
fn json_values_equal(a: &str, b: &str) -> (r: bool)
    ensures
        r == json_same_value(a@, b@),
{
    match (serde_json::from_str::<serde_json::Value>(a), serde_json::from_str::<serde_json::Value>(b)) {
        (Ok(x), Ok(y)) => x == y,
        _ => false,
    }
}

/// `serde_json::to_string` of a string: its JSON literal, written as [`json_string`] states
/// (serde_json's escape table for strings).
#[verifier::external_body]
pub(crate) fn json_string_literal(s: &str) -> (r: String)
    ensures
        r@ == json_string(s@),
{
    serde_json::Value::String(s.to_string()).to_string()
}

/// The field stored under `key`, searching from position `i`: string content and canonical
/// text.
pub open spec fn field_from(
    fs: Seq<(Seq<char>, Option<Seq<char>>, Seq<char>)>,
    key: Seq<char>,
    i: int,
) -> Option<(Option<Seq<char>>, Seq<char>)>
    decreases fs.len() - i,
{
    if i < 0 || i >= fs.len() {
        None
    } else if fs[i].0 == key {
        Some((fs[i].1, fs[i].2))
    } else {
        field_from(fs, key, i + 1)
    }
}

/// The field stored under `key`.
pub open spec fn field_of(fs: Seq<(Seq<char>, Option<Seq<char>>, Seq<char>)>, key: Seq<char>) -> Option<(Option<Seq<char>>, Seq<char>)> {
    field_from(fs, key, 0)
}

fn lookup_field(fs: &Vec<(String, Option<String>, String)>, key: &str) -> (r: Option<(Option<String>, String)>)
    ensures
        match r {
            Some(x) => field_of(fields_view(fs@), key@) == Some(
                (
                    match x.0 {
                        Some(t) => Some(t@),
                        None => None,
                    },
                    x.1@,
                ),
            ),
            None => field_of(fields_view(fs@), key@) is None,
        },
{
    let ghost fv = fields_view(fs@);
    let mut i: usize = 0;
    while i < fs.len()
        invariant
            i <= fs@.len(),
            fv == fields_view(fs@),
            field_from(fv, key@, i as int) == field_of(fv, key@),
        decreases fs.len() - i,
    {
        let kv = str_chars(fs[i].0.as_str());
        if eq_str(kv.as_slice(), key) {
            let s = match &fs[i].1 {
                Some(t) => Some(t.clone()),
                None => None,
            };
            return Some((s, fs[i].2.clone()));
        }
        i = i + 1;
    }
    None
}

/// The first of the keys present, in the given order.
pub open spec fn first_field(
    fs: Seq<(Seq<char>, Option<Seq<char>>, Seq<char>)>,
    keys: Seq<Seq<char>>,
) -> Option<(Option<Seq<char>>, Seq<char>)>
    decreases keys.len(),
{
    if keys.len() == 0 {
        None
    } else {
        match field_of(fs, keys[0]) {
            Some(f) => Some(f),
            None => first_field(fs, keys.drop_first()),
        }
    }
}

/// `{"name"|"function"|"tool": NAME, "arguments"|"parameters"|"args"|"input": ARGS}` with
/// `NAME` an available tool: the name and the canonical arguments (`{}` when absent; a
/// string argument is parsed as JSON, `{}` when it does not parse).
pub open spec fn json_tool_call(text: Seq<char>, tools: Seq<String>) -> Option<(Seq<char>, Seq<char>)> {
    match json_object_fields(text) {
        None => None,
        Some(fs) => match first_field(fs, seq!["name"@, "function"@, "tool"@]) {
            Some((Some(name), _)) => if has_name(tools, name) {
                let args = match first_field(fs, seq!["arguments"@, "parameters"@, "args"@, "input"@]) {
                    None => "{}"@,
                    Some((Some(s), _)) => match canonical_json(s) {
                        Some(v) => v,
                        None => "{}"@,
                    },
                    Some((None, c)) => c,
                };
                Some((name, args))
            } else {
                None
            },
            _ => None,
        },
    }
}

/// The view of an optional pair of strings.
pub open spec fn pair_view(r: Option<(String, String)>) -> Option<(Seq<char>, Seq<char>)> {
    match r {
        Some(p) => Some((p.0@, p.1@)),
        None => None,
    }
}

fn first_of(fs: &Vec<(String, Option<String>, String)>, k1: &str, k2: &str, k3: &str, k4: Option<&str>) -> (r: Option<(Option<String>, String)>)
    ensures
        ({
            let keys = match k4 {
                Some(k) => seq![k1@, k2@, k3@, k@],
                None => seq![k1@, k2@, k3@],
            };
            match r {
                Some(x) => first_field(fields_view(fs@), keys) == Some(
                    (
                        match x.0 {
                            Some(t) => Some(t@),
                            None => None,
                        },
                        x.1@,
                    ),
                ),
                None => first_field(fields_view(fs@), keys) is None,
            }
        }),
{
    let ghost keys = match k4 {
        Some(k) => seq![k1@, k2@, k3@, k@],
        None => seq![k1@, k2@, k3@],
    };
    let ghost fv = fields_view(fs@);
    proof {
        assert(keys.drop_first()[0] == k2@);
        assert(keys.drop_first().drop_first()[0] == k3@);
        reveal_with_fuel(first_field, 5);
    }
    if let Some(x) = lookup_field(fs, k1) {
        return Some(x);
    }
    if let Some(x) = lookup_field(fs, k2) {
        return Some(x);
    }
    if let Some(x) = lookup_field(fs, k3) {
        return Some(x);
    }
    match k4 {
        Some(k) => {
            proof {
                assert(keys.drop_first().drop_first().drop_first()[0] == k@);
                assert(keys.drop_first().drop_first().drop_first().drop_first().len() == 0);
            }
            lookup_field(fs, k)
        },
        None => {
            proof {
                assert(keys.drop_first().drop_first().drop_first().len() == 0);
            }
            None
        },
    }
}

/// Parses a JSON object that represents a tool call (see [`json_tool_call`]).
pub fn parse_json_tool_call_object(text: &str, tool_names: &[String]) -> (r: Option<(String, String)>)
    ensures
        pair_view(r) == json_tool_call(text@, tool_names@),
{
    let fs = match json_fields(text) {
        Some(fs) => fs,
        None => return None,
    };
    let name = match first_of(&fs, "name", "function", "tool", None) {
        Some((Some(n), _)) => n,
        _ => return None,
    };
    if !names_contain(tool_names, name.as_str()) {
        return None;
    }
    let args = match first_of(&fs, "arguments", "parameters", "args", Some("input")) {
        None => owned("{}"),
        Some((Some(s), _)) => match json_canonical(s.as_str()) {
            Some(v) => v,
            None => owned("{}"),
        },
        Some((None, c)) => c,
    };
    Some((name, args))
}

// ---------------------------------------------------------------------------
// Small slice helpers
// ---------------------------------------------------------------------------

/// `s` without its first `k` characters.
fn skip_vec(s: &[char], k: usize) -> (r: Vec<char>)
    requires
        k <= s@.len(),
    ensures
        r@ == s@.skip(k as int),
{
    let r = sub_vec(s, k, s.len());
    assert(r@ =~= s@.skip(k as int));
    r
}

/// `s` without leading whitespace.
fn trim_start_vec(s: &[char]) -> (r: Vec<char>)
    ensures
        r@ == trim_start(s@),
{
    let i = trim_start_from(s, 0, s.len());
    assert(s@.subrange(0, s@.len() as int) =~= s@);
    sub_vec(s, i, s.len())
}

/// Which characters end a token: 0 — whitespace, `=` or `"` (option keys); 1 — `,`, `}` or
/// whitespace (unquoted tool names); 2 — `,` or `}` (unquoted option values).
pub open spec fn stops(kind: u8, c: char) -> bool {
    if kind == 0 {
        is_ws(c) || c == '=' || c == '"'
    } else if kind == 1 {
        c == ',' || c == '}' || is_ws(c)
    } else {
        c == ',' || c == '}'
    }
}

/// First position at or after `i` of a character that ends a token of `kind`, if any.
pub open spec fn stop_from(s: Seq<char>, i: int, kind: u8) -> Option<int>
    decreases s.len() - i,
{
    if i < 0 || i >= s.len() {
        None
    } else if stops(kind, s[i]) {
        Some(i)
    } else {
        stop_from(s, i + 1, kind)
    }
}

proof fn lemma_stop_from_bounds(s: Seq<char>, i: int, kind: u8)
    ensures
        stop_from(s, i, kind) matches Some(j) ==> i <= j < s.len(),
    decreases s.len() - i,
{
    if !(i < 0 || i >= s.len()) && !stops(kind, s[i]) {
        lemma_stop_from_bounds(s, i + 1, kind);
    }
}

fn find_stop(s: &[char], kind: u8) -> (r: Option<usize>)
    ensures
        match r {
            Some(j) => stop_from(s@, 0, kind) == Some(j as int),
            None => stop_from(s@, 0, kind) is None,
        },
        r matches Some(j) ==> j < s@.len(),
{
    proof {
        lemma_stop_from_bounds(s@, 0, kind);
    }
    let mut i: usize = 0;
    while i < s.len()
        invariant
            i <= s@.len(),
            stop_from(s@, i as int, kind) == stop_from(s@, 0, kind),
        decreases s.len() - i,
    {
        let c = s[i];
        let hit = if kind == 0 {
            crate::text::char_is_ws(c) || c == '=' || c == '"'
        } else if kind == 1 {
            c == ',' || c == '}' || crate::text::char_is_ws(c)
        } else {
            c == ',' || c == '}'
        };
        if hit {
            return Some(i);
        }
        i = i + 1;
    }
    None
}

// ---------------------------------------------------------------------------
// Brace matching
// ---------------------------------------------------------------------------

/// Scanning from `i` at brace depth `depth`: the position just after the `}` that brings the
/// depth back to zero (depth may go negative on a stray `}`).
pub open spec fn brace_end_from(s: Seq<char>, i: int, depth: int) -> Option<int>
    decreases s.len() - i,
{
    if i < 0 || i >= s.len() {
        None
    } else if s[i] == '{' {
        brace_end_from(s, i + 1, depth + 1)
    } else if s[i] == '}' {
        if depth - 1 == 0 {
            Some(i + 1)
        } else {
            brace_end_from(s, i + 1, depth - 1)
        }
    } else {
        brace_end_from(s, i + 1, depth)
    }
}

proof fn lemma_brace_end_bounds(s: Seq<char>, i: int, depth: int)
    ensures
        brace_end_from(s, i, depth) matches Some(e) ==> i < e <= s.len(),
    decreases s.len() - i,
{
    if !(i < 0 || i >= s.len()) {
        if s[i] == '{' {
            lemma_brace_end_bounds(s, i + 1, depth + 1);
        } else if s[i] == '}' {
            if depth - 1 != 0 {
                lemma_brace_end_bounds(s, i + 1, depth - 1);
            }
        } else {
            lemma_brace_end_bounds(s, i + 1, depth);
        }
    }
}

fn brace_end(s: &[char]) -> (r: Option<usize>)
    ensures
        match r {
            Some(e) => brace_end_from(s@, 0, 0) == Some(e as int),
            None => brace_end_from(s@, 0, 0) is None,
        },
        r matches Some(e) ==> 0 < e <= s@.len(),
{
    proof {
        lemma_brace_end_bounds(s@, 0, 0);
    }
    let mut depth: i128 = 0;
    let mut i: usize = 0;
    while i < s.len()
        invariant
            i <= s@.len(),
            -(i as int) <= depth <= i,
            brace_end_from(s@, i as int, depth as int) == brace_end_from(s@, 0, 0),
        decreases s.len() - i,
    {
        let c = s[i];
        if c == '{' {
            depth = depth + 1;
        } else if c == '}' {
            if depth - 1 == 0 {
                return Some(i + 1);
            }
            depth = depth - 1;
        }
        i = i + 1;
    }
    None
}

/// A bare JSON object at the start of `s` (up to its matching brace) that is a tool call.
pub open spec fn bare_json_call(s: Seq<char>, tools: Seq<String>) -> Option<(Seq<char>, Seq<char>)> {
    match brace_end_from(s, 0, 0) {
        Some(e) => json_tool_call(s.take(e), tools),
        None => None,
    }
}

/// Tries to read a tool call from the JSON object that starts `text`.
pub fn try_parse_bare_json_tool_call(text: &[char], tool_names: &[String]) -> (r: Option<(String, String)>)
    ensures
        pair_view(r) == bare_json_call(text@, tool_names@),
{
    proof {
        lemma_brace_end_bounds(text@, 0, 0);
    }
    match brace_end(text) {
        Some(e) => {
            let hv = sub_vec(text, 0, e);
            let head = chars_to_string(hv.as_slice());
            assert(head@ =~= text@.take(e as int));
            assert(brace_end_from(text@, 0, 0) == Some(e as int));
            let r = parse_json_tool_call_object(head.as_str(), tool_names);
            assert(pair_view(r) == json_tool_call(text@.take(e as int), tool_names@));
            r
        },
        None => None,
    }
}

// ---------------------------------------------------------------------------
// JSON objects built from key/value entries
// ---------------------------------------------------------------------------

/// One member of a JSON object: the key, whether the value is already JSON text (otherwise a
/// string), and the value.
pub open spec fn member_json(e: (Seq<char>, bool, Seq<char>)) -> Seq<char> {
    json_string(e.0) + ":"@ + if e.1 {
        e.2
    } else {
        json_string(e.2)
    }
}

/// The members joined with commas.
pub open spec fn members_json(es: Seq<(Seq<char>, bool, Seq<char>)>) -> Seq<char>
    decreases es.len(),
{
    if es.len() == 0 {
        Seq::<char>::empty()
    } else if es.len() == 1 {
        member_json(es[0])
    } else {
        members_json(es.drop_last()) + ","@ + member_json(es.last())
    }
}

/// The canonical JSON object with these members in order (a later member replaces an earlier
/// one with the same key, as `serde_json` does); `{}` should the text not parse.
pub open spec fn object_json(es: Seq<(Seq<char>, bool, Seq<char>)>) -> Seq<char> {
    match canonical_json("{"@ + members_json(es) + "}"@) {
        Some(c) => c,
        None => "{}"@,
    }
}

/// The views of object members.
pub open spec fn members_view(v: Seq<(String, bool, String)>) -> Seq<(Seq<char>, bool, Seq<char>)> {
    v.map_values(|e: (String, bool, String)| (e.0@, e.1, e.2@))
}

fn object_from_members(es: &Vec<(String, bool, String)>) -> (r: String)
    ensures
        r@ == object_json(members_view(es@)),
{
    let ghost mv = members_view(es@);
    let mut body: Vec<char> = Vec::new();
    let mut i: usize = 0;
    while i < es.len()
        invariant
            i <= es@.len(),
            mv == members_view(es@),
            body@ == members_json(mv.take(i as int)),
        decreases es.len() - i,
    {
        proof {
            assert(mv.take(i + 1).drop_last() =~= mv.take(i as int));
            assert(mv.take(i + 1).last() == mv[i as int]);
        }
        if i > 0 {
            append_str(&mut body, ",");
        }
        let k = json_string_literal(es[i].0.as_str());
        append_str(&mut body, k.as_str());
        append_str(&mut body, ":");
        if es[i].1 {
            append_str(&mut body, es[i].2.as_str());
        } else {
            let v = json_string_literal(es[i].2.as_str());
            append_str(&mut body, v.as_str());
        }
        proof {
            if i == 0 {
                assert(mv.take(1)[0] == mv[0]);
            }
        }
        i = i + 1;
    }
    assert(mv.take(es@.len() as int) =~= mv);
    let mut text = str_chars("{");
    append_chars(&mut text, body.as_slice());
    append_str(&mut text, "}");
    let t = chars_to_string(text.as_slice());
    match json_canonical(t.as_str()) {
        Some(c) => c,
        None => owned("{}"),
    }
}

// ---------------------------------------------------------------------------
// `--key value` arguments
// ---------------------------------------------------------------------------

/// `r` after an optional comma separator (and surrounding whitespace).
pub open spec fn after_comma(r: Seq<char>) -> Seq<char> {
    let t = trim_start(r);
    if starts_with(t, ","@) {
        trim_start(t.skip(1))
    } else {
        t
    }
}

/// `r` after an optional `=` (and whitespace after it).
pub open spec fn after_equals(r: Seq<char>) -> Seq<char> {
    if starts_with(r, "="@) {
        trim_start(r.skip(1))
    } else {
        r
    }
}

pub proof fn lemma_after_len(r: Seq<char>)
    ensures
        after_comma(r).len() <= r.len(),
        after_equals(r).len() <= r.len(),
{
    reveal_strlit(",");
    reveal_strlit("=");
    lemma_trim_start_suffix(r);
    let t = trim_start(r);
    if t.len() >= 1 {
        lemma_trim_start_suffix(t.skip(1));
    }
    if r.len() >= 1 {
        lemma_trim_start_suffix(r.skip(1));
    }
}

/// The end of an option key in `r1` (first whitespace, `=` or `"`, else the end).
pub open spec fn key_end(r1: Seq<char>) -> int {
    match stop_from(r1, 0, 0) {
        Some(k) => k,
        None => r1.len() as int,
    }
}

/// The end of an unquoted option value in `r3` (first `,` or `}`, else the next `--`, else
/// the end).
pub open spec fn value_end(r3: Seq<char>) -> int {
    match stop_from(r3, 0, 2) {
        Some(v) => v,
        None => match find_spec(r3, "--"@, 0) {
            Some(v) => v,
            None => r3.len() as int,
        },
    }
}

/// The members that `--key "value"`, `--key value` and `--flag` options in `rem` give, in
/// order; an unclosed quote takes the rest of the text and ends the scan.
pub open spec fn dash_members(rem: Seq<char>) -> Seq<(Seq<char>, bool, Seq<char>)>
    decreases rem.len(),
{
    match find_spec(rem, "--"@, 0) {
        None => seq![],
        Some(d) => if d < 0 || d + 2 > rem.len() {
            seq![]
        } else {
            let r1 = rem.skip(d + 2);
            let ke = key_end(r1);
            if ke < 0 || ke > r1.len() {
                seq![]
            } else if ke == 0 {
                dash_members(r1)
            } else {
                let key = r1.take(ke);
                let r3 = after_equals(trim_start(r1.skip(ke)));
                proof {
                    lemma_trim_start_suffix(r1.skip(ke));
                    lemma_after_len(trim_start(r1.skip(ke)));
                }
                if starts_with(r3, "\""@) {
                    match find_spec(r3.skip(1), "\""@, 0) {
                        Some(q) => if q < 0 || 2 + q > r3.len() {
                            seq![]
                        } else {
                            proof {
                                lemma_after_len(r3.skip(2 + q));
                            }
                            seq![(key, false, r3.subrange(1, 1 + q))] + dash_members(
                                after_comma(r3.skip(2 + q)),
                            )
                        },
                        None => seq![(key, false, r3.skip(1))],
                    }
                } else {
                    let ve = value_end(r3);
                    if ve < 0 || ve > r3.len() {
                        seq![]
                    } else {
                        let value = trim(r3.take(ve));
                        let entry = if value.len() > 0 {
                            (key, false, value)
                        } else {
                            (key, true, "true"@)
                        };
                        proof {
                            lemma_after_len(r3.skip(ve));
                        }
                        seq![entry] + dash_members(after_comma(r3.skip(ve)))
                    }
                }
            }
        },
    }
}

/// The text inside the outer braces of `text` (up to the matching `}`, or the end), trimmed;
/// `text` trimmed when it does not start with `{`.
pub open spec fn dash_inner(text: Seq<char>) -> Seq<char> {
    if starts_with(text, "{"@) {
        let end = match brace_end_from(text, 0, 0) {
            Some(e) => e - 1,
            None => text.len() as int,
        };
        trim(text.subrange(1, end))
    } else {
        trim(text)
    }
}

/// `{--key "value", --flag}` style arguments as a canonical JSON object of strings (flags
/// without a value are `true`).
pub open spec fn dash_args_json(text: Seq<char>) -> Seq<char> {
    object_json(dash_members(dash_inner(text)))
}

fn after_comma_vec(r: &[char]) -> (out: Vec<char>)
    ensures
        out@ == after_comma(r@),
{
    let t = trim_start_vec(r);
    if starts_with_str(t.as_slice(), ",") {
        proof {
            reveal_strlit(",");
        }
        let u = skip_vec(t.as_slice(), 1);
        trim_start_vec(u.as_slice())
    } else {
        t
    }
}

fn after_equals_vec(r: &[char]) -> (out: Vec<char>)
    ensures
        out@ == after_equals(r@),
{
    if starts_with_str(r, "=") {
        proof {
            reveal_strlit("=");
        }
        let u = skip_vec(r, 1);
        trim_start_vec(u.as_slice())
    } else {
        sub_vec(r, 0, r.len())
    }
}

fn push_member(v: &mut Vec<(String, bool, String)>, k: &[char], raw: bool, val: &[char])
    ensures
        members_view(final(v)@) == members_view(old(v)@).push((k@, raw, val@)),
{
    let e = (chars_to_string(k), raw, chars_to_string(val));
    v.push(e);
    assert(members_view(v@) =~= members_view(old(v)@).push((k@, raw, val@)));
}

#[verifier::spinoff_prover]
fn dash_members_of(inner: &[char]) -> (r: Vec<(String, bool, String)>)
    ensures
        members_view(r@) == dash_members(inner@),
{
    proof {
        reveal_strlit("--");
        reveal_strlit("\"");
    }
    let mut out: Vec<(String, bool, String)> = Vec::new();
    let mut rem: Vec<char> = sub_vec(inner, 0, inner.len());
    assert(inner@.subrange(0, inner@.len() as int) =~= inner@);
    loop
        invariant_except_break
            members_view(out@) + dash_members(rem@) == dash_members(inner@),
        ensures
            members_view(out@) == dash_members(inner@),
        decreases rem@.len(),
    {
        proof {
            reveal_strlit("--");
            reveal_strlit("\"");
        }
        let d = match find_str(rem.as_slice(), 0, "--") {
            Some(d) => d,
            None => {
                assert(members_view(out@) + seq![] =~= members_view(out@));
                break;
            },
        };
        proof {
            lemma_find_spec_bounds(rem@, "--"@, 0);
        }
        let rn = rem.len();
        assert(d + 2 <= rn);
        let r1 = skip_vec(rem.as_slice(), d + 2);
        let ke = match find_stop(r1.as_slice(), 0) {
            Some(k) => k,
            None => r1.len(),
        };
        proof {
            lemma_stop_from_bounds(r1@, 0, 0);
        }
        if ke == 0 {
            rem = r1;
            continue;
        }
        let key = sub_vec(r1.as_slice(), 0, ke);
        assert(key@ =~= r1@.take(ke as int));
        let rest = skip_vec(r1.as_slice(), ke);
        let r2 = trim_start_vec(rest.as_slice());
        let r3 = after_equals_vec(r2.as_slice());
        proof {
            lemma_trim_start_suffix(r1@.skip(ke as int));
            lemma_after_len(r2@);
        }
        if starts_with_str(r3.as_slice(), "\"") {
            let r3b = skip_vec(r3.as_slice(), 1);
            match find_str(r3b.as_slice(), 0, "\"") {
                Some(q) => {
                    proof {
                        lemma_find_spec_bounds(r3@.skip(1), "\""@, 0);
                        reveal_strlit("\"");
                    }
                    let r3n = r3.len();
                    assert(q + 1 <= r3b@.len());
                    assert(2 + q <= r3n);
                    let val = sub_vec(r3.as_slice(), 1, 1 + q);
                    let ghost prev = members_view(out@);
                    push_member(&mut out, key.as_slice(), false, val.as_slice());
                    let tail = skip_vec(r3.as_slice(), 2 + q);
                    let next = after_comma_vec(tail.as_slice());
                    proof {
                        lemma_after_len(r3@.skip(2 + q));
                        assert(prev + dash_members(rem@) =~= members_view(out@) + dash_members(
                            next@,
                        ));
                    }
                    rem = next;
                },
                None => {
                    let ghost prev = members_view(out@);
                    push_member(&mut out, key.as_slice(), false, r3b.as_slice());
                    proof {
                        assert(prev + dash_members(rem@) =~= members_view(out@));
                    }
                    break;
                },
            }
        } else {
            let ve = match find_stop(r3.as_slice(), 2) {
                Some(v) => v,
                None => match find_str(r3.as_slice(), 0, "--") {
                    Some(v) => v,
                    None => r3.len(),
                },
            };
            proof {
                lemma_stop_from_bounds(r3@, 0, 2);
                lemma_find_spec_bounds(r3@, "--"@, 0);
            }
            let head = sub_vec(r3.as_slice(), 0, ve);
            assert(head@ =~= r3@.take(ve as int));
            let value = trim_chars(head.as_slice());
            let ghost prev = members_view(out@);
            if value.len() > 0 {
                push_member(&mut out, key.as_slice(), false, value.as_slice());
            } else {
                let t = str_chars("true");
                push_member(&mut out, key.as_slice(), true, t.as_slice());
            }
            let tail = skip_vec(r3.as_slice(), ve);
            let next = after_comma_vec(tail.as_slice());
            proof {
                lemma_after_len(r3@.skip(ve as int));
                assert(prev + dash_members(rem@) =~= members_view(out@) + dash_members(next@));
            }
            rem = next;
        }
    }
    out
}

/// Parses `{--key "value", --flag}` or `{--command "ls -F /"}` style arguments into a
/// canonical JSON object.
pub fn parse_dash_dash_args(text: &str) -> (r: String)
    ensures
        r@ == dash_args_json(text@),
{
    proof {
        reveal_strlit("{");
    }
    let v = str_chars(text);
    let s = v.as_slice();
    let inner = if starts_with_str(s, "{") {
        proof {
            assert(s@.subrange(0, 1)[0] == s@[0]);
            assert(s@[0] == '{');
            lemma_brace_end_bounds(s@, 1, 1);
        }
        let end = match brace_end(s) {
            Some(e) => e - 1,
            None => s.len(),
        };
        let mid = sub_vec(s, 1, end);
        trim_chars(mid.as_slice())
    } else {
        trim_chars(s)
    };
    let members = dash_members_of(inner.as_slice());
    object_from_members(&members)
}

// ---------------------------------------------------------------------------
// `<parameter=NAME>value</parameter>` blocks
// ---------------------------------------------------------------------------

/// The pattern of a `<parameter=NAME>value</parameter>` block: the name is letters, digits and
/// `_.:-`; the value is what lies between the tags, surrounding whitespace left out, across
/// lines.
pub const PARAMETER_BLOCK_PATTERN: &'static str = "(?s)<parameter=([A-Za-z0-9_.:-]+)>\\s*(.*?)\\s*</parameter>";

/// The (parameter name, value) captures of every parameter block in `text`, left to right.
pub open spec fn xml_parameter_captures(text: Seq<char>) -> Seq<(Option<Seq<char>>, Option<Seq<char>>)> {
    regex_captures(PARAMETER_BLOCK_PATTERN@, text)
}

/// The object members the parameter blocks give: trimmed name, and the trimmed, entity-decoded
/// value as JSON when it parses, else as a string.
pub open spec fn xml_members(caps: Seq<(Option<Seq<char>>, Option<Seq<char>>)>) -> Seq<(Seq<char>, bool, Seq<char>)>
    decreases caps.len(),
{
    if caps.len() == 0 {
        seq![]
    } else {
        let prev = xml_members(caps.drop_last());
        let c = caps.last();
        match c.0 {
            None => prev,
            Some(n0) => {
                let name = trim(n0);
                if name.len() == 0 {
                    prev
                } else {
                    let vt = trim(
                        unescaped_xml(
                            match c.1 {
                                Some(v) => v,
                                None => Seq::<char>::empty(),
                            },
                        ),
                    );
                    prev.push(
                        match canonical_json(vt) {
                            Some(j) => (name, true, j),
                            None => (name, false, vt),
                        },
                    )
                }
            },
        }
    }
}

/// The JSON object of the `<parameter=..>` blocks of `text`, if it has any.
pub open spec fn xml_params_json(text: Seq<char>) -> Option<Seq<char>> {
    let ms = xml_members(xml_parameter_captures(text));
    if ms.len() == 0 {
        None
    } else {
        Some(object_json(ms))
    }
}

/// Reads `<parameter=NAME>value</parameter>` blocks into a canonical JSON object; `None` when
/// there are none.
pub fn parse_xml_parameter_blocks(text: &str) -> (r: Option<String>)
    ensures
        match r {
            Some(t) => xml_params_json(text@) == Some(t@),
            None => xml_params_json(text@) is None,
        },
{
    let caps = capture_pairs(PARAMETER_BLOCK_PATTERN, text);
    let ghost cv = captures_view(caps@);
    let mut members: Vec<(String, bool, String)> = Vec::new();
    let mut i: usize = 0;
    while i < caps.len()
        invariant
            i <= caps@.len(),
            cv == captures_view(caps@),
            members_view(members@) == xml_members(cv.take(i as int)),
        decreases caps.len() - i,
    {
        proof {
            assert(cv.take(i + 1).drop_last() =~= cv.take(i as int));
            assert(cv.take(i + 1).last() == cv[i as int]);
        }
        match &caps[i].0 {
            None => {},
            Some(n0) => {
                let nv = str_chars(n0.as_str());
                let name = trim_chars(nv.as_slice());
                if name.len() > 0 {
                    let raw = match &caps[i].1 {
                        Some(v) => v.clone(),
                        None => String::new(),
                    };
                    let un = unescape_xml_entities(raw.as_str());
                    let uv = str_chars(un.as_str());
                    let vt = trim_chars(uv.as_slice());
                    let vts = chars_to_string(vt.as_slice());
                    match json_canonical(vts.as_str()) {
                        Some(j) => {
                            let jv = str_chars(j.as_str());
                            push_member(&mut members, name.as_slice(), true, jv.as_slice());
                        },
                        None => {
                            push_member(&mut members, name.as_slice(), false, vt.as_slice());
                        },
                    }
                }
            },
        }
        i = i + 1;
    }
    assert(cv.take(caps@.len() as int) =~= cv);
    if members.len() == 0 {
        None
    } else {
        Some(object_from_members(&members))
    }
}

// ---------------------------------------------------------------------------
// `{tool => "name", args => {...}}`
// ---------------------------------------------------------------------------

/// The tool name after `=>`: a quoted name up to the closing quote (none when unclosed), or
/// an unquoted name up to `,`, `}` or whitespace.
pub open spec fn arrow_name(a2: Seq<char>) -> Option<Seq<char>> {
    if starts_with(a2, "\""@) {
        match find_spec(a2.skip(1), "\""@, 0) {
            Some(q) => Some(a2.subrange(1, 1 + q)),
            None => None,
        }
    } else {
        Some(
            a2.take(
                match stop_from(a2, 0, 1) {
                    Some(e) => e,
                    None => a2.len() as int,
                },
            ),
        )
    }
}

/// The custom arrow syntax `{tool => "name", args => {..}}`: an available tool's name and the
/// arguments (JSON when they parse, else `--key value` options; `{}` without `args`). `None`
/// when there is no `tool =>`, no valid name, or `args` without `=>`.
pub open spec fn arrow_tool_call(text: Seq<char>, tools: Seq<String>) -> Option<(Seq<char>, Seq<char>)> {
    match after_arrow(text, "tool"@) {
        None => None,
        Some(None) => None,
        Some(Some(a2)) => match arrow_name(a2) {
            None => None,
            Some(name) => if name.len() == 0 || !has_name(tools, name) {
                None
            } else {
                match after_arrow(text, "args"@) {
                    None => Some((name, "{}"@)),
                    Some(None) => None,
                    Some(Some(b2)) => if starts_with(b2, "{"@) {
                        match canonical_json(b2) {
                            Some(v) => Some((name, v)),
                            None => Some((name, dash_args_json(b2))),
                        }
                    } else {
                        Some((name, "{}"@))
                    },
                }
            },
        },
    }
}

/// What follows the first occurrence of `word` (of `len` characters) after `=>`: `None` when
/// `word` does not occur (`Some(None)` when it occurs without `=>`).
pub open spec fn after_arrow(text: Seq<char>, word: Seq<char>) -> Option<Option<Seq<char>>> {
    match find_spec(text, word, 0) {
        None => None,
        Some(p) => {
            let aa = trim_start(text.skip(p + word.len()));
            if !starts_with(aa, "=>"@) {
                Some(None)
            } else {
                Some(Some(trim_start(aa.skip(2))))
            }
        },
    }
}

fn after_arrow_exec(s: &[char], word: &str) -> (r: Option<Option<Vec<char>>>)
    requires
        word@.len() > 0,
    ensures
        match r {
            None => after_arrow(s@, word@) is None,
            Some(None) => after_arrow(s@, word@) == Some(None::<Seq<char>>),
            Some(Some(v)) => after_arrow(s@, word@) == Some(Some(v@)),
        },
{
    proof {
        reveal_strlit("=>");
        lemma_find_spec_bounds(s@, word@, 0);
    }
    let wv = str_chars(word);
    let p = match find_next(s, 0, wv.as_slice()) {
        Some(p) => p,
        None => return None,
    };
    let sn = s.len();
    assert(p + wv@.len() <= sn);
    let aa = trim_start_vec(skip_vec(s, p + wv.len()).as_slice());
    if !starts_with_str(aa.as_slice(), "=>") {
        return Some(None);
    }
    assert(aa@.len() >= 2);
    let a2 = trim_start_vec(skip_vec(aa.as_slice(), 2).as_slice());
    Some(Some(a2))
}

fn arrow_name_exec(a2: &[char]) -> (r: Option<Vec<char>>)
    ensures
        match r {
            Some(n) => arrow_name(a2@) == Some(n@),
            None => arrow_name(a2@) is None,
        },
{
    proof {
        reveal_strlit("\"");
    }
    if starts_with_str(a2, "\"") {
        let rest = skip_vec(a2, 1);
        proof {
            lemma_find_spec_bounds(rest@, "\""@, 0);
        }
        match find_str(rest.as_slice(), 0, "\"") {
            Some(q) => {
                let an = a2.len();
                assert(q + 1 <= rest@.len());
                assert(1 + q <= an);
                Some(sub_vec(a2, 1, 1 + q))
            },
            None => None,
        }
    } else {
        let e = match find_stop(a2, 1) {
            Some(e) => e,
            None => a2.len(),
        };
        let n = sub_vec(a2, 0, e);
        assert(n@ =~= a2@.take(e as int));
        Some(n)
    }
}

/// Parses the arrow syntax some models use inside `[TOOL_CALL]` blocks.
pub fn parse_arrow_syntax_tool_call(text: &str, tool_names: &[String]) -> (r: Option<(String, String)>)
    ensures
        pair_view(r) == arrow_tool_call(text@, tool_names@),
{
    proof {
        reveal_strlit("tool");
        reveal_strlit("args");
        reveal_strlit("{");
    }
    let v = str_chars(text);
    let s = v.as_slice();
    let a2 = match after_arrow_exec(s, "tool") {
        None => return None,
        Some(None) => return None,
        Some(Some(a2)) => a2,
    };
    let name = match arrow_name_exec(a2.as_slice()) {
        Some(n) => n,
        None => return None,
    };
    let name_s = chars_to_string(name.as_slice());
    if name.len() == 0 || !names_contain(tool_names, name_s.as_str()) {
        return None;
    }
    let args = match after_arrow_exec(s, "args") {
        None => owned("{}"),
        Some(None) => return None,
        Some(Some(b2)) => {
            if starts_with_str(b2.as_slice(), "{") {
                let b2s = chars_to_string(b2.as_slice());
                match json_canonical(b2s.as_str()) {
                    Some(j) => j,
                    None => parse_dash_dash_args(b2s.as_str()),
                }
            } else {
                owned("{}")
            }
        },
    };
    Some((name_s, args))
}

// ---------------------------------------------------------------------------
// Candidates and de-duplication
// ---------------------------------------------------------------------------

/// The views of candidate calls (name, canonical input).
pub open spec fn cands_view(v: Seq<(String, String)>) -> Seq<(Seq<char>, Seq<char>)> {
    v.map_values(|c: (String, String)| (c.0@, c.1@))
}

/// `calls` extended by the candidates, in order, skipping any equal (same name, same input)
/// to a call already present.
/// Two calls are the same: the same tool name, and the same input, as text or as the JSON
/// value both texts parse to.
pub open spec fn same_call(x: (Seq<char>, Seq<char>), c: (Seq<char>, Seq<char>)) -> bool {
    x.0 == c.0 && (x.1 == c.1 || json_same_value(x.1, c.1))
}

/// `calls` already holds a call that is the same as `c`.
pub open spec fn has_call(calls: Seq<(Seq<char>, Seq<char>)>, c: (Seq<char>, Seq<char>)) -> bool {
    exists|i: int| 0 <= i < calls.len() && #[trigger] same_call(calls[i], c)
}

/// The calls, then each candidate that is not the same as one already there, in order.
pub open spec fn merge(calls: Seq<(Seq<char>, Seq<char>)>, cands: Seq<(Seq<char>, Seq<char>)>) -> Seq<(Seq<char>, Seq<char>)>
    decreases cands.len(),
{
    if cands.len() == 0 {
        calls
    } else {
        let c = cands[0];
        merge(
            if has_call(calls, c) {
                calls
            } else {
                calls.push(c)
            },
            cands.drop_first(),
        )
    }
}

/// The present values of a list of options, in order.
pub open spec fn somes(v: Seq<Option<(Seq<char>, Seq<char>)>>) -> Seq<(Seq<char>, Seq<char>)>
    decreases v.len(),
{
    if v.len() == 0 {
        seq![]
    } else {
        match v.last() {
            Some(c) => somes(v.drop_last()).push(c),
            None => somes(v.drop_last()),
        }
    }
}

fn push_cand(v: &mut Vec<(String, String)>, c: (String, String))
    ensures
        cands_view(final(v)@) == cands_view(old(v)@).push((c.0@, c.1@)),
{
    let ghost cv = (c.0@, c.1@);
    v.push(c);
    assert(cands_view(v@) =~= cands_view(old(v)@).push(cv));
}

fn push_opt(v: &mut Vec<(String, String)>, c: Option<(String, String)>)
    ensures
        cands_view(final(v)@) == match pair_view(c) {
            Some(p) => cands_view(old(v)@).push(p),
            None => cands_view(old(v)@),
        },
{
    match c {
        Some(x) => push_cand(v, x),
        None => {},
    }
}

fn contains_call(calls: &Vec<(String, String)>, c: &(String, String)) -> (r: bool)
    ensures
        r == has_call(cands_view(calls@), (c.0@, c.1@)),
{
    let ghost cv = cands_view(calls@);
    let mut i: usize = 0;
    while i < calls.len()
        invariant
            i <= calls@.len(),
            cv == cands_view(calls@),
            forall|j: int| 0 <= j < i ==> !#[trigger] same_call(cv[j], (c.0@, c.1@)),
        decreases calls.len() - i,
    {
        assert(cv[i as int] == (calls[i as int].0@, calls[i as int].1@));
        if calls[i].0 == c.0 && (calls[i].1 == c.1 || json_values_equal(
            calls[i].1.as_str(),
            c.1.as_str(),
        )) {
            assert(same_call(cv[i as int], (c.0@, c.1@)));
            return true;
        }
        i = i + 1;
    }
    false
}

/// Appends the candidates that are not yet among the calls.
fn merge_into(calls: &mut Vec<(String, String)>, cands: Vec<(String, String)>)
    ensures
        cands_view(final(calls)@) == merge(cands_view(old(calls)@), cands_view(cands@)),
{
    let ghost all = cands_view(cands@);
    let mut i: usize = 0;
    assert(all.skip(0) =~= all);
    while i < cands.len()
        invariant
            i <= cands@.len(),
            all == cands_view(cands@),
            merge(cands_view(calls@), all.skip(i as int)) == merge(cands_view(old(calls)@), all),
        decreases cands.len() - i,
    {
        let c = (cands[i].0.clone(), cands[i].1.clone());
        proof {
            assert(all.skip(i as int)[0] == (c.0@, c.1@));
            assert(all.skip(i as int).drop_first() =~= all.skip(i + 1));
        }
        if !contains_call(calls, &c) {
            push_cand(calls, c);
        }
        i = i + 1;
    }
}

// ---------------------------------------------------------------------------
// Tag-delimited blocks
// ---------------------------------------------------------------------------

/// The texts between `open` and the next `close`, scanning from `from`; an `open` without a
/// following `close` is skipped.
pub open spec fn blocks_from(s: Seq<char>, open: Seq<char>, close: Seq<char>, from: int) -> Seq<Seq<char>>
    decreases s.len() - from,
{
    if from < 0 || from > s.len() || open.len() == 0 || close.len() == 0 {
        seq![]
    } else {
        proof {
            lemma_find_spec_bounds(s, open, from);
        }
        match find_spec(s, open, from) {
            None => seq![],
            Some(a) => {
                let after = a + open.len();
                proof {
                    lemma_find_spec_bounds(s, close, after);
                }
                match find_spec(s, close, after) {
                    None => blocks_from(s, open, close, after),
                    Some(c) => seq![s.subrange(after, c)] + blocks_from(s, open, close, c + close.len()),
                }
            },
        }
    }
}

/// Inner texts of the `open`..`close` blocks of `s`.
fn tag_blocks(s: &[char], open: &str, close: &str) -> (r: Vec<Vec<char>>)
    requires
        open@.len() > 0,
        close@.len() > 0,
    ensures
        char_views(r@) == blocks_from(s@, open@, close@, 0),
{
    let ov = str_chars(open);
    let cv = str_chars(close);
    let mut out: Vec<Vec<char>> = Vec::new();
    let mut from: usize = 0;
    let n = s.len();
    loop
        invariant_except_break
            from <= s@.len(),
            n == s@.len(),
            ov@ == open@,
            cv@ == close@,
            open@.len() > 0,
            close@.len() > 0,
            char_views(out@) + blocks_from(s@, open@, close@, from as int) == blocks_from(
                s@,
                open@,
                close@,
                0,
            ),
        ensures
            char_views(out@) == blocks_from(s@, open@, close@, 0),
        decreases s@.len() - from,
    {
        proof {
            lemma_find_spec_bounds(s@, open@, from as int);
        }
        let a = match find_next(s, from, ov.as_slice()) {
            Some(a) => a,
            None => {
                assert(char_views(out@) + seq![] =~= char_views(out@));
                break;
            },
        };
        assert(a + ov@.len() <= n);
        let after = a + ov.len();
        proof {
            lemma_find_spec_bounds(s@, close@, after as int);
        }
        match find_next(s, after, cv.as_slice()) {
            None => {
                from = after;
            },
            Some(c) => {
                let inner = sub_vec(s, after, c);
                let ghost prev = char_views(out@);
                out.push(inner);
                proof {
                    assert(char_views(out@) =~= prev.push(s@.subrange(after as int, c as int)));
                    assert(prev + blocks_from(s@, open@, close@, from as int) =~= char_views(out@)
                        + blocks_from(s@, open@, close@, c + close@.len()));
                }
                assert(c + cv@.len() <= n);
                from = c + cv.len();
            },
        }
    }
    out
}

// ---------------------------------------------------------------------------
// `<function=NAME>BODY</function>`
// ---------------------------------------------------------------------------

/// The input of a `<function=NAME>` call: its body as JSON, else its `<parameter=..>` blocks.
pub open spec fn function_body_input(body: Seq<char>) -> Option<Seq<char>> {
    match canonical_json(body) {
        Some(v) => Some(v),
        None => xml_params_json(body),
    }
}

/// Calls written as `<function=NAME>BODY</function>`, scanning from `from`.
pub open spec fn function_eq_calls(s: Seq<char>, tools: Seq<String>, from: int) -> Seq<(Seq<char>, Seq<char>)>
    decreases s.len() - from,
{
    if from < 0 || from > s.len() {
        seq![]
    } else {
        proof {
            lemma_find_spec_bounds(s, "<function="@, from);
        }
        match find_spec(s, "<function="@, from) {
            None => seq![],
            Some(a) => {
                let ap = a + "<function="@.len();
                proof {
                    lemma_find_spec_bounds(s, ">"@, ap);
                }
                match find_spec(s, ">"@, ap) {
                    None => function_eq_calls(s, tools, ap),
                    Some(ne) => {
                        let js = ne + ">"@.len();
                        proof {
                            lemma_find_spec_bounds(s, "</function>"@, js);
                        }
                        match find_spec(s, "</function>"@, js) {
                            None => function_eq_calls(s, tools, js),
                            Some(c) => {
                                let rest = function_eq_calls(s, tools, c + "</function>"@.len());
                                let name = s.subrange(ap, ne);
                                if !has_name(tools, name) {
                                    rest
                                } else {
                                    match function_body_input(trim(s.subrange(js, c))) {
                                        None => rest,
                                        Some(inp) => seq![(name, inp)] + rest,
                                    }
                                }
                            },
                        }
                    },
                }
            },
        }
    }
}

fn function_body_input_exec(body: &[char]) -> (r: Option<String>)
    ensures
        match r {
            Some(t) => function_body_input(body@) == Some(t@),
            None => function_body_input(body@) is None,
        },
{
    let b = chars_to_string(body);
    match json_canonical(b.as_str()) {
        Some(v) => Some(v),
        None => parse_xml_parameter_blocks(b.as_str()),
    }
}

#[verifier::spinoff_prover]
fn function_eq_scan(s: &[char], tools: &[String]) -> (r: Vec<(String, String)>)
    ensures
        cands_view(r@) == function_eq_calls(s@, tools@, 0),
{
    proof {
        reveal_strlit("<function=");
        reveal_strlit(">");
        reveal_strlit("</function>");
    }
    let mut out: Vec<(String, String)> = Vec::new();
    let mut from: usize = 0;
    let n = s.len();
    loop
        invariant_except_break
            from <= s@.len(),
            n == s@.len(),
            "<function="@.len() == 10,
            ">"@.len() == 1,
            "</function>"@.len() == 11,
            cands_view(out@) + function_eq_calls(s@, tools@, from as int) == function_eq_calls(
                s@,
                tools@,
                0,
            ),
        ensures
            cands_view(out@) == function_eq_calls(s@, tools@, 0),
        decreases s@.len() - from,
    {
        proof {
            lemma_find_spec_bounds(s@, "<function="@, from as int);
        }
        let a = match find_str(s, from, "<function=") {
            Some(a) => a,
            None => {
                assert(cands_view(out@) + seq![] =~= cands_view(out@));
                break;
            },
        };
        assert(a + 10 <= n);
        let ap = a + 10;
        proof {
            lemma_find_spec_bounds(s@, ">"@, ap as int);
        }
        let ne = match find_str(s, ap, ">") {
            Some(ne) => ne,
            None => {
                from = ap;
                continue;
            },
        };
        assert(ne + 1 <= n);
        let js = ne + 1;
        proof {
            lemma_find_spec_bounds(s@, "</function>"@, js as int);
        }
        let c = match find_str(s, js, "</function>") {
            Some(c) => c,
            None => {
                from = js;
                continue;
            },
        };
        assert(c + 11 <= n);
        let ghost prev = cands_view(out@);
        let name = sub_vec(s, ap, ne);
        let names = chars_to_string(name.as_slice());
        if names_contain(tools, names.as_str()) {
            let body = trim_chars(sub_vec(s, js, c).as_slice());
            match function_body_input_exec(body.as_slice()) {
                Some(inp) => {
                    push_cand(&mut out, (names, inp));
                },
                None => {},
            }
        }
        proof {
            assert(prev + function_eq_calls(s@, tools@, from as int) =~= cands_view(out@)
                + function_eq_calls(s@, tools@, c + 11));
        }
        from = c + 11;
    }
    out
}

// ---------------------------------------------------------------------------
// Block contents
// ---------------------------------------------------------------------------

/// `NAME{JSON}`: an available tool's (trimmed, non-empty) name before the first `{`, and the
/// JSON from there.
pub open spec fn name_brace_call(inner: Seq<char>, tools: Seq<String>) -> Option<(Seq<char>, Seq<char>)> {
    match find_spec(inner, "{"@, 0) {
        None => None,
        Some(b) => {
            let name = trim(inner.take(b));
            if name.len() == 0 || !has_name(tools, name) {
                None
            } else {
                match canonical_json(trim(inner.skip(b))) {
                    Some(v) => Some((name, v)),
                    None => None,
                }
            }
        },
    }
}

/// The call in a block: kind 0 `NAME{JSON}`; kind 1 a JSON call object; kind 2 a JSON call
/// object, else the arrow syntax.
pub open spec fn block_call(kind: u8, inner: Seq<char>, tools: Seq<String>) -> Option<(Seq<char>, Seq<char>)> {
    if kind == 0 {
        name_brace_call(inner, tools)
    } else if kind == 1 {
        json_tool_call(trim(inner), tools)
    } else {
        match json_tool_call(trim(inner), tools) {
            Some(c) => Some(c),
            None => arrow_tool_call(trim(inner), tools),
        }
    }
}

/// The calls in the `open`..`close` blocks of `s`, in order.
pub open spec fn block_calls(s: Seq<char>, open: Seq<char>, close: Seq<char>, kind: u8, tools: Seq<String>) -> Seq<(Seq<char>, Seq<char>)> {
    somes(
        blocks_from(s, open, close, 0).map_values(|b: Seq<char>| block_call(kind, b, tools)),
    )
}

fn name_brace_exec(inner: &[char], tools: &[String]) -> (r: Option<(String, String)>)
    ensures
        pair_view(r) == name_brace_call(inner@, tools@),
{
    proof {
        reveal_strlit("{");
        lemma_find_spec_bounds(inner@, "{"@, 0);
    }
    let b = match find_str(inner, 0, "{") {
        Some(b) => b,
        None => return None,
    };
    let head = sub_vec(inner, 0, b);
    assert(head@ =~= inner@.take(b as int));
    let name = trim_chars(head.as_slice());
    let names = chars_to_string(name.as_slice());
    if name.len() == 0 || !names_contain(tools, names.as_str()) {
        return None;
    }
    let body = trim_chars(skip_vec(inner, b).as_slice());
    let bs = chars_to_string(body.as_slice());
    match json_canonical(bs.as_str()) {
        Some(v) => Some((names, v)),
        None => None,
    }
}

fn block_call_exec(kind: u8, inner: &[char], tools: &[String]) -> (r: Option<(String, String)>)
    ensures
        pair_view(r) == block_call(kind, inner@, tools@),
{
    if kind == 0 {
        name_brace_exec(inner, tools)
    } else {
        let t = chars_to_string(trim_chars(inner).as_slice());
        match parse_json_tool_call_object(t.as_str(), tools) {
            Some(c) => Some(c),
            None => if kind == 1 {
                None
            } else {
                parse_arrow_syntax_tool_call(t.as_str(), tools)
            },
        }
    }
}

fn block_scan(s: &[char], open: &str, close: &str, kind: u8, tools: &[String]) -> (r: Vec<(String, String)>)
    requires
        open@.len() > 0,
        close@.len() > 0,
    ensures
        cands_view(r@) == block_calls(s@, open@, close@, kind, tools@),
{
    let blocks = tag_blocks(s, open, close);
    let ghost bv = char_views(blocks@);
    let ghost calls = bv.map_values(|b: Seq<char>| block_call(kind, b, tools@));
    let mut out: Vec<(String, String)> = Vec::new();
    let mut i: usize = 0;
    while i < blocks.len()
        invariant
            i <= blocks@.len(),
            bv == char_views(blocks@),
            calls == bv.map_values(|b: Seq<char>| block_call(kind, b, tools@)),
            cands_view(out@) == somes(calls.take(i as int)),
        decreases blocks.len() - i,
    {
        let c = block_call_exec(kind, blocks[i].as_slice(), tools);
        proof {
            assert(calls.take(i + 1).drop_last() =~= calls.take(i as int));
            assert(calls.take(i + 1).last() == pair_view(c));
        }
        push_opt(&mut out, c);
        i = i + 1;
    }
    assert(calls.take(blocks@.len() as int) =~= calls);
    out
}

// ---------------------------------------------------------------------------
// Markdown code blocks
// ---------------------------------------------------------------------------

/// The call in a code block's trimmed content: an available tool's name before the first `{`
/// and JSON from there.
pub open spec fn fence_block_call(content: Seq<char>, tools: Seq<String>) -> Option<(Seq<char>, Seq<char>)> {
    match find_spec(content, "{"@, 0) {
        None => None,
        Some(b) => {
            let tool = trim(content.take(b));
            if has_name(tools, tool) {
                match canonical_json(trim(content.skip(b))) {
                    Some(v) => Some((tool, v)),
                    None => None,
                }
            } else {
                None
            }
        },
    }
}

/// After the given lines: whether a fenced block is open, its content so far (trimmed lines
/// joined by newlines), and the calls of the closed blocks.
pub open spec fn fence_state(ls: Seq<Seq<char>>, tools: Seq<String>) -> (bool, Seq<char>, Seq<Option<(Seq<char>, Seq<char>)>>)
    decreases ls.len(),
{
    if ls.len() == 0 {
        (false, seq![], seq![])
    } else {
        let st = fence_state(ls.drop_last(), tools);
        let t = trim(ls.last());
        if starts_with(t, "```"@) {
            if st.0 {
                (false, seq![], st.2.push(fence_block_call(trim(st.1), tools)))
            } else {
                (true, seq![], st.2)
            }
        } else if st.0 {
            (
                true,
                if st.1.len() == 0 {
                    t
                } else {
                    st.1 + "\n"@ + t
                },
                st.2,
            )
        } else {
            st
        }
    }
}

/// Calls in markdown code blocks.
pub open spec fn fence_calls(text: Seq<char>, tools: Seq<String>) -> Seq<(Seq<char>, Seq<char>)> {
    somes(fence_state(lines_of(text), tools).2)
}

fn fence_block_exec(content: &[char], tools: &[String]) -> (r: Option<(String, String)>)
    ensures
        pair_view(r) == fence_block_call(content@, tools@),
{
    proof {
        reveal_strlit("{");
        lemma_find_spec_bounds(content@, "{"@, 0);
    }
    let b = match find_str(content, 0, "{") {
        Some(b) => b,
        None => return None,
    };
    let head = sub_vec(content, 0, b);
    assert(head@ =~= content@.take(b as int));
    let tool = trim_chars(head.as_slice());
    let tools_s = chars_to_string(tool.as_slice());
    if !names_contain(tools, tools_s.as_str()) {
        return None;
    }
    let body = trim_chars(skip_vec(content, b).as_slice());
    let bs = chars_to_string(body.as_slice());
    match json_canonical(bs.as_str()) {
        Some(v) => Some((tools_s, v)),
        None => None,
    }
}

fn fence_scan(text: &[char], tools: &[String]) -> (r: Vec<(String, String)>)
    ensures
        cands_view(r@) == fence_calls(text@, tools@),
{
    let ls = lines(text);
    let ghost lv = char_views(ls@);
    let mut in_block = false;
    let mut block: Vec<char> = Vec::new();
    let mut out: Vec<(String, String)> = Vec::new();
    let ghost mut opts: Seq<Option<(Seq<char>, Seq<char>)>> = seq![];
    let mut i: usize = 0;
    while i < ls.len()
        invariant
            i <= ls@.len(),
            lv == char_views(ls@),
            fence_state(lv.take(i as int), tools@) == (in_block, block@, opts),
            cands_view(out@) == somes(opts),
        decreases ls.len() - i,
    {
        proof {
            assert(lv.take(i + 1).drop_last() =~= lv.take(i as int));
            assert(lv.take(i + 1).last() == ls@[i as int]@);
        }
        let t = trim_chars(ls[i].as_slice());
        if starts_with_str(t.as_slice(), "```") {
            if in_block {
                let content = trim_chars(block.as_slice());
                let c = fence_block_exec(content.as_slice(), tools);
                let ghost prev_opts = opts;
                proof {
                    opts = opts.push(pair_view(c));
                    assert(opts.drop_last() =~= prev_opts);
                    assert(opts.last() == pair_view(c));
                }
                push_opt(&mut out, c);
                block = Vec::new();
                in_block = false;
            } else {
                block = Vec::new();
                in_block = true;
            }
        } else if in_block {
            let ghost before = block@;
            if block.len() > 0 {
                block.push('\n');
            }
            append_chars(&mut block, t.as_slice());
            proof {
                reveal_strlit("\n");
                if before.len() > 0 {
                    assert(block@ =~= before + "\n"@ + t@);
                } else {
                    assert(block@ =~= t@);
                }
            }
        }
        i = i + 1;
    }
    assert(lv.take(ls@.len() as int) =~= lv);
    out
}

// ---------------------------------------------------------------------------
// Backtick spans
// ---------------------------------------------------------------------------

/// The call in a backtick span: a single-word available tool name before the first `{` and
/// JSON from there.
pub open spec fn backtick_call(chunk: Seq<char>, tools: Seq<String>) -> Option<(Seq<char>, Seq<char>)> {
    let t = trim(chunk);
    match find_spec(t, "{"@, 0) {
        None => None,
        Some(b) => {
            let tool = trim(t.take(b));
            if tool.len() > 0 && !contains(tool, " "@) && has_name(tools, tool) {
                match canonical_json(trim(t.skip(b))) {
                    Some(v) => Some((tool, v)),
                    None => None,
                }
            } else {
                None
            }
        },
    }
}

/// Calls in the spans between backticks (every second piece of the text split at `` ` ``).
pub open spec fn backtick_calls(text: Seq<char>, tools: Seq<String>) -> Seq<(Seq<char>, Seq<char>)> {
    let parts = split_all(text, '`');
    somes(Seq::new(parts.len() / 2, |j: int| backtick_call(parts[2 * j + 1], tools)))
}

fn backtick_exec(chunk: &[char], tools: &[String]) -> (r: Option<(String, String)>)
    ensures
        pair_view(r) == backtick_call(chunk@, tools@),
{
    proof {
        reveal_strlit("{");
        reveal_strlit(" ");
    }
    let t = trim_chars(chunk);
    proof {
        lemma_find_spec_bounds(t@, "{"@, 0);
    }
    let b = match find_str(t.as_slice(), 0, "{") {
        Some(b) => b,
        None => return None,
    };
    let head = sub_vec(t.as_slice(), 0, b);
    assert(head@ =~= t@.take(b as int));
    let tool = trim_chars(head.as_slice());
    let tool_s = chars_to_string(tool.as_slice());
    if tool.len() == 0 || contains_str(tool.as_slice(), " ") || !names_contain(tools, tool_s.as_str()) {
        return None;
    }
    let body = trim_chars(skip_vec(t.as_slice(), b).as_slice());
    let bs = chars_to_string(body.as_slice());
    match json_canonical(bs.as_str()) {
        Some(v) => Some((tool_s, v)),
        None => None,
    }
}

fn backtick_scan(text: &[char], tools: &[String]) -> (r: Vec<(String, String)>)
    ensures
        cands_view(r@) == backtick_calls(text@, tools@),
{
    let parts = split_chars(text, '`');
    let ghost pv = char_views(parts@);
    let ghost calls = Seq::new(pv.len() / 2, |j: int| backtick_call(pv[2 * j + 1], tools@));
    let mut out: Vec<(String, String)> = Vec::new();
    let mut j: usize = 0;
    let half = parts.len() / 2;
    while j < half
        invariant
            j <= half,
            half == pv.len() / 2,
            pv == char_views(parts@),
            pv.len() == parts@.len(),
            calls == Seq::new(pv.len() / 2, |j: int| backtick_call(pv[2 * j + 1], tools@)),
            cands_view(out@) == somes(calls.take(j as int)),
        decreases half - j,
    {
        let pn = parts.len();
        assert(2 * j + 1 < pn) by (nonlinear_arith)
            requires
                j < half,
                half == pn / 2,
        ;
        let c = backtick_exec(parts[2 * j + 1].as_slice(), tools);
        proof {
            assert(calls.take(j + 1).drop_last() =~= calls.take(j as int));
            assert(calls.take(j + 1).last() == pair_view(c));
        }
        push_opt(&mut out, c);
        j = j + 1;
    }
    assert(calls.take(half as int) =~= calls);
    out
}

// ---------------------------------------------------------------------------
// `<function name="..." parameters="..." />`
// ---------------------------------------------------------------------------

/// The pattern of a `<function name="NAME" parameters="PARAMS" />` call: the name and the
/// parameters are the two quoted attribute values.
pub const ATTRIBUTE_CALL_PATTERN: &'static str = "<function\\s+name=\"([^\"]+)\"\\s+parameters=\"([^\"]*)\"[^/]*/?>";

/// The (name, parameters) captures of every attribute call in `text`, left to right.
pub open spec fn xml_attribute_captures(text: Seq<char>) -> Seq<(Option<Seq<char>>, Option<Seq<char>>)> {
    regex_captures(ATTRIBUTE_CALL_PATTERN@, text)
}

/// The call of one attribute match: an available tool and its entity-decoded parameters as
/// JSON.
pub open spec fn attribute_call(c: (Option<Seq<char>>, Option<Seq<char>>), tools: Seq<String>) -> Option<(Seq<char>, Seq<char>)> {
    match c {
        (Some(name), Some(raw)) => if has_name(tools, name) {
            match canonical_json(unescaped_xml(raw)) {
                Some(v) => Some((name, v)),
                None => None,
            }
        } else {
            None
        },
        _ => None,
    }
}

/// Calls written as XML attributes.
pub open spec fn attribute_calls(text: Seq<char>, tools: Seq<String>) -> Seq<(Seq<char>, Seq<char>)> {
    somes(xml_attribute_captures(text).map_values(|c: (Option<Seq<char>>, Option<Seq<char>>)| attribute_call(c, tools)))
}

fn attribute_scan(text: &str, tools: &[String]) -> (r: Vec<(String, String)>)
    ensures
        cands_view(r@) == attribute_calls(text@, tools@),
{
    let caps = capture_pairs(ATTRIBUTE_CALL_PATTERN, text);
    let ghost cv = captures_view(caps@);
    let ghost calls = cv.map_values(|c: (Option<Seq<char>>, Option<Seq<char>>)| attribute_call(c, tools@));
    let mut out: Vec<(String, String)> = Vec::new();
    let mut i: usize = 0;
    while i < caps.len()
        invariant
            i <= caps@.len(),
            cv == captures_view(caps@),
            calls == cv.map_values(|c: (Option<Seq<char>>, Option<Seq<char>>)| attribute_call(c, tools@)),
            cands_view(out@) == somes(calls.take(i as int)),
        decreases caps.len() - i,
    {
        let c: Option<(String, String)> = match (&caps[i].0, &caps[i].1) {
            (Some(name), Some(raw)) => if names_contain(tools, name.as_str()) {
                let un = unescape_xml_entities(raw.as_str());
                match json_canonical(un.as_str()) {
                    Some(v) => Some((name.clone(), v)),
                    None => None,
                }
            } else {
                None
            },
            _ => None,
        };
        proof {
            assert(calls.take(i + 1).drop_last() =~= calls.take(i as int));
            assert(calls.take(i + 1).last() == pair_view(c));
        }
        push_opt(&mut out, c);
        i = i + 1;
    }
    assert(calls.take(caps@.len() as int) =~= calls);
    out
}

// ---------------------------------------------------------------------------
// ReAct `Action:` / `Action Input:` lines
// ---------------------------------------------------------------------------

/// `s` without the prefix `p`, if it starts with it.
pub open spec fn strip_prefix(s: Seq<char>, p: Seq<char>) -> Option<Seq<char>> {
    if starts_with(s, p) {
        Some(s.skip(p.len() as int))
    } else {
        None
    }
}

/// The tool part of an `Action:` (or `action:`) line.
pub open spec fn action_tool(line: Seq<char>) -> Option<Seq<char>> {
    match strip_prefix(line, "Action:"@) {
        Some(x) => Some(x),
        None => strip_prefix(line, "action:"@),
    }
}

/// The JSON part of an `Action Input:` (or `action input:`, `action_input:`) line.
pub open spec fn action_input(line: Seq<char>) -> Option<Seq<char>> {
    match strip_prefix(line, "Action Input:"@) {
        Some(x) => Some(x),
        None => match strip_prefix(line, "action input:"@) {
            Some(x) => Some(x),
            None => strip_prefix(line, "action_input:"@),
        },
    }
}

/// Calls written as an `Action:` line naming an available tool followed by an
/// `Action Input:` line, scanning from line `i`; such a pair is consumed whether or not its
/// JSON parses.
pub open spec fn action_calls_from(ls: Seq<Seq<char>>, tools: Seq<String>, i: int) -> Seq<(Seq<char>, Seq<char>)>
    decreases ls.len() - i,
{
    if i < 0 || i >= ls.len() {
        seq![]
    } else {
        match action_tool(trim(ls[i])) {
            None => action_calls_from(ls, tools, i + 1),
            Some(tp) => {
                let tool = trim(tp);
                if has_name(tools, tool) && i + 1 < ls.len() {
                    match action_input(trim(ls[i + 1])) {
                        Some(jp) => match canonical_json(trim(jp)) {
                            Some(v) => seq![(tool, v)] + action_calls_from(ls, tools, i + 2),
                            None => action_calls_from(ls, tools, i + 2),
                        },
                        None => action_calls_from(ls, tools, i + 1),
                    }
                } else {
                    action_calls_from(ls, tools, i + 1)
                }
            },
        }
    }
}

/// Calls in `Action:` / `Action Input:` line pairs.
pub open spec fn action_calls(text: Seq<char>, tools: Seq<String>) -> Seq<(Seq<char>, Seq<char>)> {
    action_calls_from(lines_of(text), tools, 0)
}

fn strip_prefix_exec(s: &[char], p: &str) -> (r: Option<Vec<char>>)
    ensures
        match r {
            Some(x) => strip_prefix(s@, p@) == Some(x@),
            None => strip_prefix(s@, p@) is None,
        },
{
    if starts_with_str(s, p) {
        let pn = p.len();
        let pv = str_chars(p);
        assert(pv@.len() <= s@.len());
        Some(skip_vec(s, pv.len()))
    } else {
        None
    }
}

fn action_tool_exec(line: &[char]) -> (r: Option<Vec<char>>)
    ensures
        match r {
            Some(x) => action_tool(line@) == Some(x@),
            None => action_tool(line@) is None,
        },
{
    match strip_prefix_exec(line, "Action:") {
        Some(x) => Some(x),
        None => strip_prefix_exec(line, "action:"),
    }
}

fn action_input_exec(line: &[char]) -> (r: Option<Vec<char>>)
    ensures
        match r {
            Some(x) => action_input(line@) == Some(x@),
            None => action_input(line@) is None,
        },
{
    match strip_prefix_exec(line, "Action Input:") {
        Some(x) => Some(x),
        None => match strip_prefix_exec(line, "action input:") {
            Some(x) => Some(x),
            None => strip_prefix_exec(line, "action_input:"),
        },
    }
}

fn action_scan(text: &[char], tools: &[String]) -> (r: Vec<(String, String)>)
    ensures
        cands_view(r@) == action_calls(text@, tools@),
{
    let ls = lines(text);
    let ghost lv = char_views(ls@);
    let n = ls.len();
    let mut out: Vec<(String, String)> = Vec::new();
    let mut i: usize = 0;
    while i < n
        invariant
            i <= n,
            n == ls@.len(),
            lv == char_views(ls@),
            cands_view(out@) + action_calls_from(lv, tools@, i as int) == action_calls_from(lv, tools@, 0),
        decreases n - i,
    {
        let ghost prev = cands_view(out@);
        let line = trim_chars(ls[i].as_slice());
        match action_tool_exec(line.as_slice()) {
            None => {
                i = i + 1;
            },
            Some(tp) => {
                let tool = trim_chars(tp.as_slice());
                let tool_s = chars_to_string(tool.as_slice());
                if names_contain(tools, tool_s.as_str()) && i + 1 < n {
                    let next = trim_chars(ls[i + 1].as_slice());
                    match action_input_exec(next.as_slice()) {
                        Some(jp) => {
                            let js = chars_to_string(trim_chars(jp.as_slice()).as_slice());
                            match json_canonical(js.as_str()) {
                                Some(v) => {
                                    push_cand(&mut out, (tool_s, v));
                                    proof {
                                        assert(prev + action_calls_from(lv, tools@, i as int) =~= cands_view(out@)
                                            + action_calls_from(lv, tools@, i + 2));
                                    }
                                },
                                None => {},
                            }
                            i = i + 2;
                        },
                        None => {
                            i = i + 1;
                        },
                    }
                } else {
                    i = i + 1;
                }
            },
        }
    }
    out
}

// ---------------------------------------------------------------------------
// A tool name on one line, its JSON on the next
// ---------------------------------------------------------------------------

/// Line `i` is a single-word available tool name and line `i + 1` a JSON object.
pub open spec fn name_line_call(ls: Seq<Seq<char>>, i: int, tools: Seq<String>) -> Option<(Seq<char>, Seq<char>)> {
    let nl = trim(ls[i]);
    if contains(nl, " "@) || contains(nl, "{"@) || nl.len() == 0 || !has_name(tools, nl) {
        None
    } else {
        let jl = trim(ls[i + 1]);
        if !starts_with(jl, "{"@) {
            None
        } else {
            match canonical_json(jl) {
                Some(v) => Some((nl, v)),
                None => None,
            }
        }
    }
}

/// Calls in name-line / JSON-line pairs (every pair of consecutive lines is tried).
pub open spec fn name_line_calls(text: Seq<char>, tools: Seq<String>) -> Seq<(Seq<char>, Seq<char>)> {
    let ls = lines_of(text);
    somes(
        Seq::new(
            if ls.len() > 0 {
                (ls.len() - 1) as nat
            } else {
                0
            },
            |i: int| name_line_call(ls, i, tools),
        ),
    )
}

fn name_line_exec(ls: &Vec<Vec<char>>, i: usize, tools: &[String]) -> (r: Option<(String, String)>)
    requires
        i + 1 < ls@.len(),
    ensures
        pair_view(r) == name_line_call(char_views(ls@), i as int, tools@),
{
    proof {
        reveal_strlit("{");
        reveal_strlit(" ");
    }
    let n = ls.len();
    let nl = trim_chars(ls[i].as_slice());
    let nl_s = chars_to_string(nl.as_slice());
    if contains_str(nl.as_slice(), " ") || contains_str(nl.as_slice(), "{") || nl.len() == 0
        || !names_contain(tools, nl_s.as_str()) {
        return None;
    }
    let jl = trim_chars(ls[i + 1].as_slice());
    if !starts_with_str(jl.as_slice(), "{") {
        return None;
    }
    let js = chars_to_string(jl.as_slice());
    match json_canonical(js.as_str()) {
        Some(v) => Some((nl_s, v)),
        None => None,
    }
}

fn name_line_scan(text: &[char], tools: &[String]) -> (r: Vec<(String, String)>)
    ensures
        cands_view(r@) == name_line_calls(text@, tools@),
{
    let ls = lines(text);
    let ghost lv = char_views(ls@);
    let m: usize = if ls.len() > 0 {
        ls.len() - 1
    } else {
        0
    };
    let ghost calls = Seq::new(m as nat, |i: int| name_line_call(lv, i, tools@));
    let mut out: Vec<(String, String)> = Vec::new();
    let mut i: usize = 0;
    while i < m
        invariant
            i <= m,
            m == if ls@.len() > 0 {
                ls@.len() - 1
            } else {
                0
            },
            lv == char_views(ls@),
            calls == Seq::new(m as nat, |i: int| name_line_call(lv, i, tools@)),
            cands_view(out@) == somes(calls.take(i as int)),
        decreases m - i,
    {
        let c = name_line_exec(&ls, i, tools);
        proof {
            assert(calls.take(i + 1).drop_last() =~= calls.take(i as int));
            assert(calls.take(i + 1).last() == pair_view(c));
        }
        push_opt(&mut out, c);
        i = i + 1;
    }
    assert(calls.take(m as int) =~= calls);
    out
}

// ---------------------------------------------------------------------------
// Bare JSON objects
// ---------------------------------------------------------------------------

/// Calls in JSON objects starting at each `{` at or after `from`.
pub open spec fn bare_calls_from(s: Seq<char>, tools: Seq<String>, from: int) -> Seq<(Seq<char>, Seq<char>)>
    decreases s.len() - from,
{
    if from < 0 || from > s.len() {
        seq![]
    } else {
        proof {
            lemma_find_spec_bounds(s, "{"@, from);
        }
        match find_spec(s, "{"@, from) {
            None => seq![],
            Some(a) => {
                let rest = bare_calls_from(s, tools, a + 1);
                match bare_json_call(s.skip(a), tools) {
                    Some(c) => seq![c] + rest,
                    None => rest,
                }
            },
        }
    }
}

fn bare_scan(s: &[char], tools: &[String]) -> (r: Vec<(String, String)>)
    ensures
        cands_view(r@) == bare_calls_from(s@, tools@, 0),
{
    proof {
        reveal_strlit("{");
    }
    let mut out: Vec<(String, String)> = Vec::new();
    let mut from: usize = 0;
    let n = s.len();
    loop
        invariant_except_break
            from <= s@.len(),
            n == s@.len(),
            "{"@.len() == 1,
            cands_view(out@) + bare_calls_from(s@, tools@, from as int) == bare_calls_from(s@, tools@, 0),
        ensures
            cands_view(out@) == bare_calls_from(s@, tools@, 0),
        decreases s@.len() - from,
    {
        proof {
            lemma_find_spec_bounds(s@, "{"@, from as int);
        }
        let a = match find_str(s, from, "{") {
            Some(a) => a,
            None => {
                assert(cands_view(out@) + seq![] =~= cands_view(out@));
                break;
            },
        };
        assert(a + 1 <= n);
        let ghost prev = cands_view(out@);
        let tail = skip_vec(s, a);
        let c = try_parse_bare_json_tool_call(tail.as_slice(), tools);
        push_opt(&mut out, c);
        proof {
            assert(prev + bare_calls_from(s@, tools@, from as int) =~= cands_view(out@)
                + bare_calls_from(s@, tools@, a + 1));
        }
        from = a + 1;
    }
    out
}

// ---------------------------------------------------------------------------
// All patterns together
// ---------------------------------------------------------------------------

/// A tool call recovered from text: a fresh id, the tool name, and the canonical JSON input.
pub struct RecoveredCall {
    pub id: String,
    pub name: String,
    pub input_json: String,
}

/// The (name, input) views of recovered calls.
pub open spec fn recovered_view(v: Seq<RecoveredCall>) -> Seq<(Seq<char>, Seq<char>)> {
    v.map_values(|c: RecoveredCall| (c.name@, c.input_json@))
}

/// Every call recoverable from `text`, in pattern order: `<function=..>` calls first (kept as
/// found), then each further pattern's calls not already recovered; bare JSON objects only
/// when nothing else was found.
pub open spec fn recovered_calls(text: Seq<char>, tools: Seq<String>) -> Seq<(Seq<char>, Seq<char>)> {
    let c1 = function_eq_calls(text, tools, 0);
    let c2 = merge(c1, block_calls(text, "<function>"@, "</function>"@, 0, tools));
    let c3 = merge(c2, block_calls(text, "<tool>"@, "</tool>"@, 0, tools));
    let c4 = merge(c3, fence_calls(text, tools));
    let c5 = merge(c4, backtick_calls(text, tools));
    let c6 = merge(c5, block_calls(text, "[TOOL_CALL]"@, "[/TOOL_CALL]"@, 2, tools));
    let c7 = merge(c6, block_calls(text, "<tool_call>"@, "</tool_call>"@, 1, tools));
    let c9 = merge(c7, attribute_calls(text, tools));
    let c10 = merge(c9, block_calls(text, "<|plugin|>"@, "<|endofblock|>"@, 1, tools));
    let c11 = merge(c10, action_calls(text, tools));
    let c12 = merge(c11, name_line_calls(text, tools));
    let c13 = merge(c12, block_calls(text, "<tool_use>"@, "</tool_use>"@, 1, tools));
    if c13.len() == 0 {
        merge(c13, bare_calls_from(text, tools, 0))
    } else {
        c13
    }
}

/// `uuid::Uuid::new_v4().to_string()`: a fresh random UUID in its hyphenated form. What is
/// stated is its length, 36 characters (32 hex digits and four hyphens); the value is random.
#[verifier::external_body]
fn random_uuid_text() -> (r: String)
    ensures
        r@.len() == 36,
{
    uuid::Uuid::new_v4().to_string()
}

/// A fresh id for a recovered call: `recovered_` followed by a random UUID.
fn recovered_call_id() -> (r: String)
    ensures
        starts_with(r@, "recovered_"@),
        r@.len() == 46,
{
    let u = random_uuid_text();
    let mut v = str_chars("recovered_");
    append_str(&mut v, u.as_str());
    proof {
        reveal_strlit("recovered_");
        assert(v@.subrange(0, 10) =~= "recovered_"@);
    }
    chars_to_string(v.as_slice())
}

/// Recovers tool calls that a model wrote as text, for the tools named in `tool_names`.
pub fn recover_text_tool_calls(text: &str, tool_names: &[String]) -> (r: Vec<RecoveredCall>)
    ensures
        recovered_view(r@) == recovered_calls(text@, tool_names@),
        forall|i: int| 0 <= i < r@.len() ==> starts_with(#[trigger] r@[i].id@, "recovered_"@),
{
    proof {
        reveal_strlit("<function>");
        reveal_strlit("</function>");
        reveal_strlit("<tool>");
        reveal_strlit("</tool>");
        reveal_strlit("[TOOL_CALL]");
        reveal_strlit("[/TOOL_CALL]");
        reveal_strlit("<tool_call>");
        reveal_strlit("</tool_call>");
        reveal_strlit("<|plugin|>");
        reveal_strlit("<|endofblock|>");
        reveal_strlit("<tool_use>");
        reveal_strlit("</tool_use>");
    }
    let v = str_chars(text);
    let s = v.as_slice();
    let mut calls = function_eq_scan(s, tool_names);
    merge_into(&mut calls, block_scan(s, "<function>", "</function>", 0, tool_names));
    merge_into(&mut calls, block_scan(s, "<tool>", "</tool>", 0, tool_names));
    merge_into(&mut calls, fence_scan(s, tool_names));
    merge_into(&mut calls, backtick_scan(s, tool_names));
    merge_into(&mut calls, block_scan(s, "[TOOL_CALL]", "[/TOOL_CALL]", 2, tool_names));
    merge_into(&mut calls, block_scan(s, "<tool_call>", "</tool_call>", 1, tool_names));
    merge_into(&mut calls, attribute_scan(text, tool_names));
    merge_into(&mut calls, block_scan(s, "<|plugin|>", "<|endofblock|>", 1, tool_names));
    merge_into(&mut calls, action_scan(s, tool_names));
    merge_into(&mut calls, name_line_scan(s, tool_names));
    merge_into(&mut calls, block_scan(s, "<tool_use>", "</tool_use>", 1, tool_names));
    if calls.len() == 0 {
        merge_into(&mut calls, bare_scan(s, tool_names));
    }
    let ghost cv = cands_view(calls@);
    let mut out: Vec<RecoveredCall> = Vec::new();
    let mut i: usize = 0;
    while i < calls.len()
        invariant
            i <= calls@.len(),
            cv == cands_view(calls@),
            recovered_view(out@) == cv.take(i as int),
            forall|k: int| 0 <= k < out@.len() ==> starts_with(#[trigger] out@[k].id@, "recovered_"@),
        decreases calls.len() - i,
    {
        let id = recovered_call_id();
        let c = RecoveredCall { id, name: calls[i].0.clone(), input_json: calls[i].1.clone() };
        let ghost prev = out@;
        out.push(c);
        proof {
            assert(recovered_view(out@) =~= recovered_view(prev).push((c.name@, c.input_json@)));
            assert(cv.take(i + 1) =~= cv.take(i as int).push(cv[i as int]));
        }
        i = i + 1;
    }
    assert(cv.take(calls@.len() as int) =~= cv);
    out
}

// ---------------------------------------------------------------------------
// Only available tools are recovered
// ---------------------------------------------------------------------------

/// Every call names one of the available tools.
pub open spec fn names_available(calls: Seq<(Seq<char>, Seq<char>)>, tools: Seq<String>) -> bool {
    forall|i: int| 0 <= i < calls.len() ==> has_name(tools, (#[trigger] calls[i]).0)
}

/// An optional call, when present, names one of the available tools.
pub open spec fn opt_available(c: Option<(Seq<char>, Seq<char>)>, tools: Seq<String>) -> bool {
    c matches Some(x) ==> has_name(tools, x.0)
}

proof fn lemma_merge_available(calls: Seq<(Seq<char>, Seq<char>)>, cands: Seq<(Seq<char>, Seq<char>)>, tools: Seq<String>)
    requires
        names_available(calls, tools),
        names_available(cands, tools),
    ensures
        names_available(merge(calls, cands), tools),
    decreases cands.len(),
{
    if cands.len() > 0 {
        let c = cands[0];
        let next = if has_call(calls, c) {
            calls
        } else {
            calls.push(c)
        };
        assert(names_available(next, tools)) by {
            assert forall|i: int| 0 <= i < next.len() implies has_name(tools, (#[trigger] next[i]).0) by {
                if i < calls.len() {
                    assert(next[i] == calls[i]);
                }
            }
        }
        assert(names_available(cands.drop_first(), tools)) by {
            assert forall|i: int| 0 <= i < cands.drop_first().len() implies has_name(
                tools,
                (#[trigger] cands.drop_first()[i]).0,
            ) by {
                assert(cands.drop_first()[i] == cands[i + 1]);
            }
        }
        lemma_merge_available(next, cands.drop_first(), tools);
    }
}

proof fn lemma_somes_available(v: Seq<Option<(Seq<char>, Seq<char>)>>, tools: Seq<String>)
    requires
        forall|i: int| 0 <= i < v.len() ==> opt_available(#[trigger] v[i], tools),
    ensures
        names_available(somes(v), tools),
    decreases v.len(),
{
    if v.len() > 0 {
        assert(forall|i: int| 0 <= i < v.drop_last().len() ==> v.drop_last()[i] == v[i]);
        lemma_somes_available(v.drop_last(), tools);
        assert(opt_available(v[v.len() - 1], tools));
        let prev = somes(v.drop_last());
        match v.last() {
            Some(c) => {
                assert forall|i: int| 0 <= i < somes(v).len() implies has_name(
                    tools,
                    (#[trigger] somes(v)[i]).0,
                ) by {
                    if i < prev.len() {
                        assert(somes(v)[i] == prev[i]);
                    }
                }
            },
            None => {},
        }
    }
}

proof fn lemma_block_call_available(kind: u8, inner: Seq<char>, tools: Seq<String>)
    ensures
        opt_available(block_call(kind, inner, tools), tools),
{
}

proof fn lemma_fence_state_available(ls: Seq<Seq<char>>, tools: Seq<String>)
    ensures
        forall|i: int|
            0 <= i < fence_state(ls, tools).2.len() ==> opt_available(
                #[trigger] fence_state(ls, tools).2[i],
                tools,
            ),
    decreases ls.len(),
{
    if ls.len() > 0 {
        lemma_fence_state_available(ls.drop_last(), tools);
        let st = fence_state(ls.drop_last(), tools);
        let cur = fence_state(ls, tools);
        assert forall|i: int| 0 <= i < cur.2.len() implies opt_available(#[trigger] cur.2[i], tools) by {
            if i < st.2.len() {
                assert(cur.2[i] == st.2[i]);
            }
        }
    }
}

proof fn lemma_function_eq_available(s: Seq<char>, tools: Seq<String>, from: int)
    ensures
        names_available(function_eq_calls(s, tools, from), tools),
    decreases s.len() - from,
{
    if 0 <= from <= s.len() {
        lemma_find_spec_bounds(s, "<function="@, from);
        match find_spec(s, "<function="@, from) {
            None => {},
            Some(a) => {
                let ap = a + "<function="@.len();
                lemma_find_spec_bounds(s, ">"@, ap);
                match find_spec(s, ">"@, ap) {
                    None => {
                        lemma_function_eq_available(s, tools, ap);
                    },
                    Some(ne) => {
                        let js = ne + ">"@.len();
                        lemma_find_spec_bounds(s, "</function>"@, js);
                        match find_spec(s, "</function>"@, js) {
                            None => {
                                lemma_function_eq_available(s, tools, js);
                            },
                            Some(c) => {
                                let rest = function_eq_calls(s, tools, c + "</function>"@.len());
                                lemma_function_eq_available(s, tools, c + "</function>"@.len());
                                let name = s.subrange(ap, ne);
                                if has_name(tools, name) {
                                    match function_body_input(trim(s.subrange(js, c))) {
                                        None => {},
                                        Some(inp) => {
                                            let out = seq![(name, inp)] + rest;
                                            assert forall|i: int| 0 <= i < out.len() implies has_name(
                                                tools,
                                                (#[trigger] out[i]).0,
                                            ) by {
                                                if i > 0 {
                                                    assert(out[i] == rest[i - 1]);
                                                }
                                            }
                                        },
                                    }
                                }
                            },
                        }
                    },
                }
            },
        }
    }
}

proof fn lemma_action_available(ls: Seq<Seq<char>>, tools: Seq<String>, i: int)
    ensures
        names_available(action_calls_from(ls, tools, i), tools),
    decreases ls.len() - i,
{
    if 0 <= i < ls.len() {
        lemma_action_available(ls, tools, i + 1);
        if i + 1 < ls.len() {
            lemma_action_available(ls, tools, i + 2);
        }
        match action_tool(trim(ls[i])) {
            None => {},
            Some(tp) => {
                let tool = trim(tp);
                if has_name(tools, tool) && i + 1 < ls.len() {
                    match action_input(trim(ls[i + 1])) {
                        Some(jp) => match canonical_json(trim(jp)) {
                            Some(v) => {
                                let rest = action_calls_from(ls, tools, i + 2);
                                let out = seq![(tool, v)] + rest;
                                assert forall|k: int| 0 <= k < out.len() implies has_name(
                                    tools,
                                    (#[trigger] out[k]).0,
                                ) by {
                                    if k > 0 {
                                        assert(out[k] == rest[k - 1]);
                                    }
                                }
                            },
                            None => {},
                        },
                        None => {},
                    }
                }
            },
        }
    }
}

proof fn lemma_bare_available(s: Seq<char>, tools: Seq<String>, from: int)
    ensures
        names_available(bare_calls_from(s, tools, from), tools),
    decreases s.len() - from,
{
    if 0 <= from <= s.len() {
        lemma_find_spec_bounds(s, "{"@, from);
        match find_spec(s, "{"@, from) {
            None => {},
            Some(a) => {
                lemma_bare_available(s, tools, a + 1);
                let rest = bare_calls_from(s, tools, a + 1);
                match bare_json_call(s.skip(a), tools) {
                    Some(c) => {
                        let out = seq![c] + rest;
                        assert forall|k: int| 0 <= k < out.len() implies has_name(
                            tools,
                            (#[trigger] out[k]).0,
                        ) by {
                            if k > 0 {
                                assert(out[k] == rest[k - 1]);
                            }
                        }
                    },
                    None => {},
                }
            },
        }
    }
}

proof fn lemma_scans_available(text: Seq<char>, tools: Seq<String>)
    ensures
        names_available(function_eq_calls(text, tools, 0), tools),
        forall|open: Seq<char>, close: Seq<char>, kind: u8|
            names_available(#[trigger] block_calls(text, open, close, kind, tools), tools),
        names_available(fence_calls(text, tools), tools),
        names_available(backtick_calls(text, tools), tools),
        names_available(attribute_calls(text, tools), tools),
        names_available(action_calls(text, tools), tools),
        names_available(name_line_calls(text, tools), tools),
        names_available(bare_calls_from(text, tools, 0), tools),
{
    lemma_function_eq_available(text, tools, 0);
    assert forall|open: Seq<char>, close: Seq<char>, kind: u8|
        names_available(#[trigger] block_calls(text, open, close, kind, tools), tools) by {
        let v = blocks_from(text, open, close, 0).map_values(|b: Seq<char>| block_call(kind, b, tools));
        assert forall|i: int| 0 <= i < v.len() implies opt_available(#[trigger] v[i], tools) by {
            lemma_block_call_available(kind, blocks_from(text, open, close, 0)[i], tools);
        }
        lemma_somes_available(v, tools);
    }
    lemma_fence_state_available(lines_of(text), tools);
    lemma_somes_available(fence_state(lines_of(text), tools).2, tools);
    let parts = split_all(text, '`');
    let bt = Seq::new(parts.len() / 2, |j: int| backtick_call(parts[2 * j + 1], tools));
    assert forall|i: int| 0 <= i < bt.len() implies opt_available(#[trigger] bt[i], tools) by {}
    lemma_somes_available(bt, tools);
    let at = xml_attribute_captures(text).map_values(
        |c: (Option<Seq<char>>, Option<Seq<char>>)| attribute_call(c, tools),
    );
    assert forall|i: int| 0 <= i < at.len() implies opt_available(#[trigger] at[i], tools) by {}
    lemma_somes_available(at, tools);
    lemma_action_available(lines_of(text), tools, 0);
    let ls = lines_of(text);
    let nl = Seq::new(
        if ls.len() > 0 {
            (ls.len() - 1) as nat
        } else {
            0
        },
        |i: int| name_line_call(ls, i, tools),
    );
    assert forall|i: int| 0 <= i < nl.len() implies opt_available(#[trigger] nl[i], tools) by {}
    lemma_somes_available(nl, tools);
    lemma_bare_available(text, tools, 0);
}

/// Unknown tool names are never recovered: every recovered call names one of the available
/// tools, so nothing is recovered when no tool is available.
pub proof fn law_recovered_names_available(text: Seq<char>, tools: Seq<String>)
    ensures
        names_available(recovered_calls(text, tools), tools),
        tools.len() == 0 ==> recovered_calls(text, tools).len() == 0,
{
    lemma_scans_available(text, tools);
    let e: Seq<(Seq<char>, Seq<char>)> = seq![];
    let c1 = function_eq_calls(text, tools, 0);
    let c2 = merge(c1, block_calls(text, "<function>"@, "</function>"@, 0, tools));
    lemma_merge_available(c1, block_calls(text, "<function>"@, "</function>"@, 0, tools), tools);
    let c3 = merge(c2, block_calls(text, "<tool>"@, "</tool>"@, 0, tools));
    lemma_merge_available(c2, block_calls(text, "<tool>"@, "</tool>"@, 0, tools), tools);
    let c4 = merge(c3, fence_calls(text, tools));
    lemma_merge_available(c3, fence_calls(text, tools), tools);
    let c5 = merge(c4, backtick_calls(text, tools));
    lemma_merge_available(c4, backtick_calls(text, tools), tools);
    let c6 = merge(c5, block_calls(text, "[TOOL_CALL]"@, "[/TOOL_CALL]"@, 2, tools));
    lemma_merge_available(c5, block_calls(text, "[TOOL_CALL]"@, "[/TOOL_CALL]"@, 2, tools), tools);
    let c7 = merge(c6, block_calls(text, "<tool_call>"@, "</tool_call>"@, 1, tools));
    lemma_merge_available(c6, block_calls(text, "<tool_call>"@, "</tool_call>"@, 1, tools), tools);
    let c9 = merge(c7, attribute_calls(text, tools));
    lemma_merge_available(c7, attribute_calls(text, tools), tools);
    let c10 = merge(c9, block_calls(text, "<|plugin|>"@, "<|endofblock|>"@, 1, tools));
    lemma_merge_available(c9, block_calls(text, "<|plugin|>"@, "<|endofblock|>"@, 1, tools), tools);
    let c11 = merge(c10, action_calls(text, tools));
    lemma_merge_available(c10, action_calls(text, tools), tools);
    let c12 = merge(c11, name_line_calls(text, tools));
    lemma_merge_available(c11, name_line_calls(text, tools), tools);
    let c13 = merge(c12, block_calls(text, "<tool_use>"@, "</tool_use>"@, 1, tools));
    lemma_merge_available(c12, block_calls(text, "<tool_use>"@, "</tool_use>"@, 1, tools), tools);
    lemma_merge_available(c13, bare_calls_from(text, tools, 0), tools);
    let r = recovered_calls(text, tools);
    if tools.len() == 0 && r.len() > 0 {
        assert(has_name(tools, r[0].0));
    }
}

// ---------------------------------------------------------------------------
// The arrow syntax names its call whether or not the name is quoted
// ---------------------------------------------------------------------------

/// No character before `k` (from `i` on) ends a token, so the first stop is found at `k` or
/// later.
proof fn lemma_stop_from_skips(s: Seq<char>, i: int, k: int, kind: u8)
    requires
        0 <= i <= k <= s.len(),
        forall|j: int| i <= j < k ==> !stops(kind, #[trigger] s[j]),
    ensures
        stop_from(s, i, kind) == stop_from(s, k, kind),
    decreases k - i,
{
    if i < k {
        lemma_stop_from_skips(s, i + 1, k, kind);
    }
}

/// No quote before `k` (from `i` on), a quote at `k`: the search for a quote finds `k`.
proof fn lemma_find_quote(s: Seq<char>, i: int, k: int)
    requires
        0 <= i <= k < s.len(),
        forall|j: int| i <= j < k ==> #[trigger] s[j] != '"',
        s[k] == '"',
    ensures
        find_spec(s, "\""@, i) == Some(k),
    decreases k - i,
{
    reveal_strlit("\"");
    if i < k {
        assert(!matches_at(s, i, "\""@)) by {
            if matches_at(s, i, "\""@) {
                assert(s.subrange(i, i + 1)[0] == s[i]);
            }
        }
        lemma_find_quote(s, i + 1, k);
    } else {
        assert(s.subrange(k, k + 1) =~= "\""@);
    }
}

/// The tool name after `tool =>` in the arrow syntax is the same written bare or in quotes: a
/// bare name runs up to the first `,`, `}` or whitespace (or the end), a quoted one up to its
/// closing quote, so `NAME` and `"NAME"` followed by the same text both give `NAME`.
pub proof fn law_arrow_name_quoting(n: Seq<char>, rest: Seq<char>)
    requires
        n.len() > 0,
        forall|i: int|
            0 <= i < n.len() ==> #[trigger] n[i] != '"' && n[i] != ',' && n[i] != '}' && !is_ws(
                n[i],
            ),
        rest.len() == 0 || rest[0] == ',' || rest[0] == '}' || is_ws(rest[0]),
    ensures
        arrow_name(n + rest) == Some(n),
        arrow_name("\""@ + n + "\""@ + rest) == Some(n),
{
    reveal_strlit("\"");
    let bare = n + rest;
    assert(!starts_with(bare, "\""@)) by {
        if starts_with(bare, "\""@) {
            assert(bare.subrange(0, 1)[0] == bare[0]);
        }
    }
    assert forall|j: int| 0 <= j < n.len() implies !stops(1, #[trigger] bare[j]) by {
        assert(bare[j] == n[j]);
    }
    lemma_stop_from_skips(bare, 0, n.len() as int, 1);
    if rest.len() > 0 {
        assert(bare[n.len() as int] == rest[0]);
    }
    assert(bare.take(n.len() as int) =~= n);
    let quoted = "\""@ + n + "\""@ + rest;
    assert(quoted.subrange(0, 1) =~= "\""@);
    let inner = quoted.skip(1);
    assert(inner =~= n + "\""@ + rest);
    assert forall|j: int| 0 <= j < n.len() implies #[trigger] inner[j] != '"' by {
        assert(inner[j] == n[j]);
    }
    lemma_find_quote(inner, 0, n.len() as int);
    assert(quoted.subrange(1, 1 + n.len() as int) =~= n);
}

/// In the arrow syntax the call is named by the name after `tool =>`: whenever that name is
/// an available tool (and an `args` part, if any, has its `=>`), a call with exactly that name
/// is recovered, whatever quoting the name had.
pub proof fn law_arrow_call_named_by_tool_part(text: Seq<char>, tools: Seq<String>, a2: Seq<char>, n: Seq<char>)
    requires
        after_arrow(text, "tool"@) == Some(Some(a2)),
        arrow_name(a2) == Some(n),
        n.len() > 0,
        has_name(tools, n),
        after_arrow(text, "args"@) != Some(None::<Seq<char>>),
    ensures
        arrow_tool_call(text, tools) is Some,
        arrow_tool_call(text, tools).unwrap().0 == n,
{
}

} // verus!
