//! Guidance injected after a tool round that produced errors: targeted on the first
//! occurrence of an error pattern, stronger on the second identical occurrence, silent from
//! the third on, and silent when the loop guard already explained itself. A clean round resets
//! the tracker.

use vstd::prelude::*;
use crate::text::{
    append_chars, append_str, chars_to_string, contains, contains_str, decimal, starts_with,
    starts_with_str, str_chars, sub_vec, u64_decimal,
};

verus! {

/// Characters of an error message that enter its fingerprint.
pub const FINGERPRINT_PREFIX_CHARS: usize = 60;

/// One tool result of a round.
pub struct ToolResultEntry {
    pub tool_name: String,
    pub content: String,
    pub is_error: bool,
}

/// `a` sorts strictly before `b` (lexicographic by code point, as `String`'s `Ord`).
pub open spec fn lex_lt(a: Seq<char>, b: Seq<char>) -> bool
    decreases a.len(),
{
    if a.len() == 0 {
        b.len() > 0
    } else if b.len() == 0 {
        false
    } else if a[0] != b[0] {
        (a[0] as u32) < (b[0] as u32)
    } else {
        lex_lt(a.drop_first(), b.drop_first())
    }
}

/// `x` inserted into `s` before the first element it does not sort after.
pub open spec fn insert_sorted(s: Seq<Seq<char>>, x: Seq<char>) -> Seq<Seq<char>>
    decreases s.len(),
{
    if s.len() == 0 {
        seq![x]
    } else if lex_lt(s[0], x) {
        seq![s[0]] + insert_sorted(s.drop_first(), x)
    } else {
        seq![x] + s
    }
}

/// `v` in ascending order.
pub open spec fn sort_strs(v: Seq<Seq<char>>) -> Seq<Seq<char>>
    decreases v.len(),
{
    if v.len() == 0 {
        seq![]
    } else {
        insert_sorted(sort_strs(v.drop_last()), v.last())
    }
}

/// `s` joined with `sep` between elements.
pub open spec fn join(s: Seq<Seq<char>>, sep: Seq<char>) -> Seq<char>
    decreases s.len(),
{
    if s.len() == 0 {
        seq![]
    } else if s.len() == 1 {
        s[0]
    } else {
        join(s.drop_last(), sep) + sep + s.last()
    }
}

fn lex_lt_exec(a: &[char], b: &[char]) -> (r: bool)
    ensures
        r == lex_lt(a@, b@),
{
    let mut i: usize = 0;
    assert(a@.skip(0) =~= a@);
    assert(b@.skip(0) =~= b@);
    while i < a.len() && i < b.len()
        invariant
            i <= a@.len(),
            i <= b@.len(),
            lex_lt(a@.skip(i as int), b@.skip(i as int)) == lex_lt(a@, b@),
        decreases a.len() - i,
    {
        proof {
            assert(a@.skip(i as int)[0] == a@[i as int]);
            assert(b@.skip(i as int)[0] == b@[i as int]);
            assert(a@.skip(i as int).drop_first() =~= a@.skip(i + 1));
            assert(b@.skip(i as int).drop_first() =~= b@.skip(i + 1));
        }
        if a[i] != b[i] {
            return (a[i] as u32) < (b[i] as u32);
        }
        i = i + 1;
    }
    i == a.len() && i < b.len()
}

/// Position where `x` goes: the first element `x` does not sort after.
proof fn lemma_insert_at(s: Seq<Seq<char>>, x: Seq<char>, i: int)
    requires
        0 <= i <= s.len(),
        forall|j: int| 0 <= j < i ==> lex_lt(#[trigger] s[j], x),
        i < s.len() ==> !lex_lt(s[i], x),
    ensures
        insert_sorted(s, x) == s.take(i) + seq![x] + s.skip(i),
    decreases s.len(),
{
    if s.len() == 0 {
        assert(s.take(i) + seq![x] + s.skip(i) =~= seq![x]);
    } else if i == 0 {
        assert(s.take(0) + seq![x] + s.skip(0) =~= seq![x] + s);
    } else {
        let t = s.drop_first();
        assert forall|j: int| 0 <= j < i - 1 implies lex_lt(#[trigger] t[j], x) by {
            assert(t[j] == s[j + 1]);
        }
        if i - 1 < t.len() {
            assert(t[i - 1] == s[i]);
        }
        lemma_insert_at(t, x, i - 1);
        assert(seq![s[0]] + (t.take(i - 1) + seq![x] + t.skip(i - 1)) =~= s.take(i) + seq![x]
            + s.skip(i));
    }
}

fn sort_strings(v: &Vec<Vec<char>>) -> (r: Vec<Vec<char>>)
    ensures
        crate::tool_recovery::char_views(r@) == sort_strs(crate::tool_recovery::char_views(v@)),
{
    let ghost vv = crate::tool_recovery::char_views(v@);
    let mut out: Vec<Vec<char>> = Vec::new();
    let mut k: usize = 0;
    while k < v.len()
        invariant
            k <= v@.len(),
            vv == crate::tool_recovery::char_views(v@),
            crate::tool_recovery::char_views(out@) == sort_strs(vv.take(k as int)),
        decreases v.len() - k,
    {
        let x = &v[k];
        let ghost ov = crate::tool_recovery::char_views(out@);
        let mut i: usize = 0;
        while i < out.len() && lex_lt_exec(out[i].as_slice(), x.as_slice())
            invariant
                i <= out@.len(),
                ov == crate::tool_recovery::char_views(out@),
                forall|j: int| 0 <= j < i ==> lex_lt(#[trigger] ov[j], x@),
            decreases out.len() - i,
        {
            i = i + 1;
        }
        proof {
            lemma_insert_at(ov, x@, i as int);
            assert(vv.take(k + 1).drop_last() =~= vv.take(k as int));
            assert(vv.take(k + 1).last() == x@);
        }
        let item = sub_vec(x.as_slice(), 0, x.len());
        assert(item@ =~= x@);
        out.insert(i, item);
        proof {
            assert(crate::tool_recovery::char_views(out@) =~= ov.take(i as int) + seq![x@] + ov.skip(
                i as int,
            ));
        }
        k = k + 1;
    }
    assert(vv.take(v@.len() as int) =~= vv);
    out
}

/// `parts` joined with `sep` between elements.
pub fn join_chars_pub(parts: &Vec<Vec<char>>, sep: &str) -> (r: Vec<char>)
    ensures
        r@ == join(crate::tool_recovery::char_views(parts@), sep@),
{
    join_chars(parts, sep)
}

fn join_chars(parts: &Vec<Vec<char>>, sep: &str) -> (r: Vec<char>)
    ensures
        r@ == join(crate::tool_recovery::char_views(parts@), sep@),
{
    let ghost pv = crate::tool_recovery::char_views(parts@);
    let mut out: Vec<char> = Vec::new();
    let mut i: usize = 0;
    while i < parts.len()
        invariant
            i <= parts@.len(),
            pv == crate::tool_recovery::char_views(parts@),
            out@ == join(pv.take(i as int), sep@),
        decreases parts.len() - i,
    {
        proof {
            assert(pv.take(i + 1).drop_last() =~= pv.take(i as int));
            assert(pv.take(i + 1).last() == parts@[i as int]@);
        }
        if i > 0 {
            append_str(&mut out, sep);
        }
        append_chars(&mut out, parts[i].as_slice());
        proof {
            if i == 0 {
                assert(pv.take(1)[0] == parts@[0]@);
                assert(out@ =~= parts@[0]@);
            }
        }
        i = i + 1;
    }
    assert(pv.take(parts@.len() as int) =~= pv);
    out
}

// ---------------------------------------------------------------------------
// The tracker
// ---------------------------------------------------------------------------

/// The failed results of a round: tool name and error text, in order.
pub open spec fn errors_of(entries: Seq<ToolResultEntry>) -> Seq<(Seq<char>, Seq<char>)>
    decreases entries.len(),
{
    if entries.len() == 0 {
        seq![]
    } else {
        let prev = errors_of(entries.drop_last());
        let e = entries.last();
        if e.is_error {
            prev.push((e.tool_name@, e.content@))
        } else {
            prev
        }
    }
}

/// `tool:prefix` of one error, with the first 60 characters of its text.
pub open spec fn fingerprint_part(e: (Seq<char>, Seq<char>)) -> Seq<char> {
    e.0 + ":"@ + if e.1.len() <= FINGERPRINT_PREFIX_CHARS {
        e.1
    } else {
        e.1.take(FINGERPRINT_PREFIX_CHARS as int)
    }
}

/// The fingerprint of a round's errors: their parts, sorted, joined by `|`.
pub open spec fn fingerprint(errs: Seq<(Seq<char>, Seq<char>)>) -> Seq<char> {
    join(sort_strs(errs.map_values(|e: (Seq<char>, Seq<char>)| fingerprint_part(e))), "|"@)
}

/// The names of the failing tools, each once, in first-seen order.
pub open spec fn distinct_names(errs: Seq<(Seq<char>, Seq<char>)>) -> Seq<Seq<char>>
    decreases errs.len(),
{
    if errs.len() == 0 {
        seq![]
    } else {
        let prev = distinct_names(errs.drop_last());
        if prev.contains(errs.last().0) {
            prev
        } else {
            prev.push(errs.last().0)
        }
    }
}

/// Some error says a required parameter is missing.
pub open spec fn has_missing_param(errs: Seq<(Seq<char>, Seq<char>)>) -> bool {
    exists|i: int|
        0 <= i < errs.len() && {
            let c = (#[trigger] errs[i]).1;
            (contains(c, "Missing '"@) && contains(c, "' parameter"@)) || contains(
                c,
                "Missing required"@,
            ) || contains(c, "missing required"@)
        }
}

/// Every error is a loop-guard message.
pub open spec fn all_loop_guard(errs: Seq<(Seq<char>, Seq<char>)>) -> bool {
    forall|i: int|
        0 <= i < errs.len() ==> starts_with((#[trigger] errs[i]).1, "Blocked:"@) || starts_with(
            errs[i].1,
            "Circuit breaker:"@,
        )
}

/// First-occurrence guidance when parameters were missing.
pub open spec fn missing_param_message(tool_list: Seq<char>) -> Seq<char> {
    "[System: Tool call(s) to ["@ + tool_list
        + "] are missing required parameters (received empty or incomplete input). Re-read the tool schema and supply all required fields — do not call tools with empty {} inputs.]"@
}

/// First-occurrence guidance for other failures.
pub open spec fn failed_calls_message(n: nat, tool_list: Seq<char>) -> Seq<char> {
    "[System: "@ + decimal(n) + " tool call(s) failed (["@ + tool_list
        + "]). Do not invent results from failed calls or take actions downstream of failed outputs. If the task is not finished, retry with different parameters, a different tool, or a different approach.]"@
}

/// Guidance on the second identical failure.
pub open spec fn repeated_failure_message() -> Seq<char> {
    "[System: The same tool error has occurred twice in a row. You are not making progress. Stop using the failing tool(s), recall your original goal, and switch to a completely different method to accomplish it.]"@
}

/// One round: the tracker's next (fingerprint, streak) and the guidance to inject.
pub open spec fn guidance_step(
    state: (Option<Seq<char>>, usize),
    entries: Seq<ToolResultEntry>,
    denial_count: usize,
) -> ((Option<Seq<char>>, usize), Option<Seq<char>>) {
    let errs = errors_of(entries);
    if errs.len() == 0 {
        ((None, 0), None)
    } else {
        let fp = fingerprint(errs);
        let streak: usize = if state.0 == Some(fp) {
            state.1.saturating_add(1)
        } else {
            1
        };
        let st = (Some(fp), streak);
        let tool_list = join(distinct_names(errs), ", "@);
        if all_loop_guard(errs) || errs.len() <= denial_count {
            (st, None)
        } else if streak == 1 {
            (
                st,
                Some(
                    if has_missing_param(errs) {
                        missing_param_message(tool_list)
                    } else {
                        failed_calls_message((errs.len() - denial_count) as nat, tool_list)
                    },
                ),
            )
        } else if streak == 2 {
            (st, Some(repeated_failure_message()))
        } else {
            (st, None)
        }
    }
}

/// Tracks error patterns across agent-loop rounds.
pub struct ToolErrorTracker {
    last_fingerprint: Option<String>,
    same_fingerprint_streak: usize,
}

impl ToolErrorTracker {
    /// The last fingerprint and how many consecutive rounds produced it.
    pub closed spec fn view(&self) -> (Option<Seq<char>>, usize) {
        (
            match self.last_fingerprint {
                Some(f) => Some(f@),
                None => None,
            },
            self.same_fingerprint_streak,
        )
    }

    /// A tracker that has seen no errors.
    pub fn new() -> (r: Self)
        ensures
            r.view() == (None::<Seq<char>>, 0usize),
    {
        ToolErrorTracker { last_fingerprint: None, same_fingerprint_streak: 0 }
    }

    /// A round without errors: counters reset.
    pub fn record_success(&mut self)
        ensures
            final(self).view() == (None::<Seq<char>>, 0usize),
    {
        self.last_fingerprint = None;
        self.same_fingerprint_streak = 0;
    }

    /// The guidance to inject after this round (if any); must be called once per round.
    pub fn compute_guidance(&mut self, tool_result_blocks: &[ToolResultEntry], denial_count: usize) -> (r: Option<String>)
        ensures
            (final(self).view(), match r {
                Some(t) => Some(t@),
                None => None,
            }) == guidance_step(old(self).view(), tool_result_blocks@, denial_count),
    {
        let errs = collect_errors(tool_result_blocks);
        if errs.len() == 0 {
            self.record_success();
            return None;
        }
        let fp = fingerprint_exec(&errs);
        let same = match &self.last_fingerprint {
            Some(f) => {
                let a = str_chars(f.as_str());
                let b = str_chars(fp.as_str());
                crate::text::eq_chars(a.as_slice(), b.as_slice())
            },
            None => false,
        };
        if same {
            self.same_fingerprint_streak = self.same_fingerprint_streak.saturating_add(1);
        } else {
            self.same_fingerprint_streak = 1;
        }
        self.last_fingerprint = Some(fp);
        let ghost ev = errors_view(errs@);
        if all_loop_guard_exec(&errs) || errs.len() <= denial_count {
            return None;
        }
        let names = distinct_names_exec(&errs);
        let tool_list = chars_to_string(join_chars(&names, ", ").as_slice());
        if self.same_fingerprint_streak == 1 {
            if has_missing_param_exec(&errs) {
                let mut v = str_chars("[System: Tool call(s) to [");
                append_str(&mut v, tool_list.as_str());
                append_str(
                    &mut v,
                    "] are missing required parameters (received empty or incomplete input). Re-read the tool schema and supply all required fields — do not call tools with empty {} inputs.]",
                );
                Some(chars_to_string(v.as_slice()))
            } else {
                let n = errs.len() - denial_count;
                let mut v = str_chars("[System: ");
                let d = u64_decimal(n as u64);
                append_chars(&mut v, d.as_slice());
                append_str(&mut v, " tool call(s) failed ([");
                append_str(&mut v, tool_list.as_str());
                append_str(
                    &mut v,
                    "]). Do not invent results from failed calls or take actions downstream of failed outputs. If the task is not finished, retry with different parameters, a different tool, or a different approach.]",
                );
                Some(chars_to_string(v.as_slice()))
            }
        } else if self.same_fingerprint_streak == 2 {
            Some(
                crate::text::owned(
                    "[System: The same tool error has occurred twice in a row. You are not making progress. Stop using the failing tool(s), recall your original goal, and switch to a completely different method to accomplish it.]",
                ),
            )
        } else {
            None
        }
    }
}

/// The views of error pairs.
pub open spec fn errors_view(v: Seq<(String, String)>) -> Seq<(Seq<char>, Seq<char>)> {
    v.map_values(|e: (String, String)| (e.0@, e.1@))
}

fn collect_errors(entries: &[ToolResultEntry]) -> (r: Vec<(String, String)>)
    ensures
        errors_view(r@) == errors_of(entries@),
{
    let mut out: Vec<(String, String)> = Vec::new();
    let mut i: usize = 0;
    while i < entries.len()
        invariant
            i <= entries@.len(),
            errors_view(out@) == errors_of(entries@.take(i as int)),
        decreases entries.len() - i,
    {
        proof {
            assert(entries@.take(i + 1).drop_last() =~= entries@.take(i as int));
            assert(entries@.take(i + 1).last() == entries@[i as int]);
        }
        if entries[i].is_error {
            let ghost prev = out@;
            let e = (entries[i].tool_name.clone(), entries[i].content.clone());
            out.push(e);
            assert(errors_view(out@) =~= errors_view(prev).push((e.0@, e.1@)));
        }
        i = i + 1;
    }
    assert(entries@.take(entries@.len() as int) =~= entries@);
    out
}

fn fingerprint_exec(errs: &Vec<(String, String)>) -> (r: String)
    ensures
        r@ == fingerprint(errors_view(errs@)),
{
    let ghost ev = errors_view(errs@);
    let mut parts: Vec<Vec<char>> = Vec::new();
    let mut i: usize = 0;
    while i < errs.len()
        invariant
            i <= errs@.len(),
            ev == errors_view(errs@),
            crate::tool_recovery::char_views(parts@) == ev.take(i as int).map_values(
                |e: (Seq<char>, Seq<char>)| fingerprint_part(e),
            ),
        decreases errs.len() - i,
    {
        let mut p = str_chars(errs[i].0.as_str());
        append_str(&mut p, ":");
        let c = str_chars(errs[i].1.as_str());
        let take = if c.len() <= FINGERPRINT_PREFIX_CHARS {
            c.len()
        } else {
            FINGERPRINT_PREFIX_CHARS
        };
        let pre = sub_vec(c.as_slice(), 0, take);
        proof {
            if c@.len() <= FINGERPRINT_PREFIX_CHARS {
                assert(c@.subrange(0, take as int) =~= c@);
            } else {
                assert(c@.subrange(0, take as int) =~= c@.take(FINGERPRINT_PREFIX_CHARS as int));
            }
        }
        append_chars(&mut p, pre.as_slice());
        let ghost prev = crate::tool_recovery::char_views(parts@);
        parts.push(p);
        proof {
            assert(crate::tool_recovery::char_views(parts@) =~= prev.push(p@));
            assert(ev.take(i + 1).map_values(|e: (Seq<char>, Seq<char>)| fingerprint_part(e))
                =~= ev.take(i as int).map_values(|e: (Seq<char>, Seq<char>)| fingerprint_part(e)).push(
                fingerprint_part(ev[i as int]),
            ));
        }
        i = i + 1;
    }
    assert(ev.take(errs@.len() as int) =~= ev);
    let sorted = sort_strings(&parts);
    chars_to_string(join_chars(&sorted, "|").as_slice())
}

fn all_loop_guard_exec(errs: &Vec<(String, String)>) -> (r: bool)
    ensures
        r == all_loop_guard(errors_view(errs@)),
{
    let ghost ev = errors_view(errs@);
    let mut i: usize = 0;
    while i < errs.len()
        invariant
            i <= errs@.len(),
            ev == errors_view(errs@),
            forall|j: int| 0 <= j < i ==> starts_with((#[trigger] ev[j]).1, "Blocked:"@) || starts_with(
                ev[j].1,
                "Circuit breaker:"@,
            ),
        decreases errs.len() - i,
    {
        let c = str_chars(errs[i].1.as_str());
        if !(starts_with_str(c.as_slice(), "Blocked:") || starts_with_str(
            c.as_slice(),
            "Circuit breaker:",
        )) {
            assert(ev[i as int].1 == c@);
            return false;
        }
        i = i + 1;
    }
    true
}

fn has_missing_param_exec(errs: &Vec<(String, String)>) -> (r: bool)
    ensures
        r == has_missing_param(errors_view(errs@)),
{
    let ghost ev = errors_view(errs@);
    let mut i: usize = 0;
    while i < errs.len()
        invariant
            i <= errs@.len(),
            ev == errors_view(errs@),
            forall|j: int|
                0 <= j < i ==> !{
                    let c = (#[trigger] ev[j]).1;
                    (contains(c, "Missing '"@) && contains(c, "' parameter"@)) || contains(
                        c,
                        "Missing required"@,
                    ) || contains(c, "missing required"@)
                },
        decreases errs.len() - i,
    {
        let c = str_chars(errs[i].1.as_str());
        let cs = c.as_slice();
        if (contains_str(cs, "Missing '") && contains_str(cs, "' parameter")) || contains_str(
            cs,
            "Missing required",
        ) || contains_str(cs, "missing required") {
            assert(ev[i as int].1 == c@);
            return true;
        }
        i = i + 1;
    }
    false
}

fn distinct_names_exec(errs: &Vec<(String, String)>) -> (r: Vec<Vec<char>>)
    ensures
        crate::tool_recovery::char_views(r@) == distinct_names(errors_view(errs@)),
{
    let ghost ev = errors_view(errs@);
    let mut out: Vec<Vec<char>> = Vec::new();
    let mut i: usize = 0;
    while i < errs.len()
        invariant
            i <= errs@.len(),
            ev == errors_view(errs@),
            crate::tool_recovery::char_views(out@) == distinct_names(ev.take(i as int)),
        decreases errs.len() - i,
    {
        proof {
            assert(ev.take(i + 1).drop_last() =~= ev.take(i as int));
            assert(ev.take(i + 1).last() == ev[i as int]);
        }
        let n = str_chars(errs[i].0.as_str());
        let ghost ov = crate::tool_recovery::char_views(out@);
        let mut seen = false;
        let mut j: usize = 0;
        while j < out.len()
            invariant
                j <= out@.len(),
                ov == crate::tool_recovery::char_views(out@),
                !seen ==> forall|k: int| 0 <= k < j ==> ov[k] != n@,
                seen ==> ov.contains(n@),
            decreases out.len() - j,
        {
            if crate::text::eq_chars(out[j].as_slice(), n.as_slice()) {
                seen = true;
                assert(ov[j as int] == n@);
            }
            j = j + 1;
        }
        if !seen {
            proof {
                assert(!ov.contains(n@)) by {
                    if ov.contains(n@) {
                        let k = choose|k: int| 0 <= k < ov.len() && ov[k] == n@;
                        assert(ov[k] != n@);
                    }
                }
            }
            out.push(n);
            assert(crate::tool_recovery::char_views(out@) =~= ov.push(ev[i as int].0));
        }
        i = i + 1;
    }
    assert(ev.take(errs@.len() as int) =~= ev);
    out
}

/// Guidance over repeated rounds: from a fresh tracker (or one just reset by a success), the
/// same failing round (not only loop-guard blocks, more errors than denials) gets
/// first-occurrence guidance, then the repeated-failure guidance, then none.
pub proof fn law_guidance_over_three_rounds(entries: Seq<ToolResultEntry>, denial_count: usize)
    requires
        errors_of(entries).len() > denial_count,
        !all_loop_guard(errors_of(entries)),
    ensures
        ({
            let s1 = guidance_step((None, 0), entries, denial_count);
            let s2 = guidance_step(s1.0, entries, denial_count);
            let s3 = guidance_step(s2.0, entries, denial_count);
            &&& s1.1 is Some
            &&& starts_with(s1.1.unwrap(), "[System:"@)
            &&& s2.1 == Some(repeated_failure_message())
            &&& s3.1 is None
        }),
{
    reveal_strlit("[System:");
    reveal_strlit("[System: Tool call(s) to [");
    reveal_strlit("[System: ");
    let errs = errors_of(entries);
    let tool_list = join(distinct_names(errs), ", "@);
    let s1 = guidance_step((None, 0), entries, denial_count);
    if has_missing_param(errs) {
        let m = missing_param_message(tool_list);
        assert(m.subrange(0, 8) =~= "[System:"@);
    } else {
        let m = failed_calls_message((errs.len() - denial_count) as nat, tool_list);
        assert(m.subrange(0, 8) =~= "[System:"@);
    }
}

/// A round without failed results resets the tracker and injects nothing, whatever came before.
pub proof fn law_guidance_resets_on_success(
    state: (Option<Seq<char>>, usize),
    entries: Seq<ToolResultEntry>,
    denial_count: usize,
)
    requires
        errors_of(entries).len() == 0,
    ensures
        guidance_step(state, entries, denial_count) == ((None::<Seq<char>>, 0usize), None::<Seq<char>>),
{
}

} // verus!
