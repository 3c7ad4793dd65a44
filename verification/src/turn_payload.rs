//! Turn payload format shared with the graph extractor: the user message, a fixed
//! separator, the assistant response, and an optional block of tool names, plus the
//! repeated-tool-cycle pattern detector.

use vstd::prelude::*;
use crate::github::{pieces, split_nonempty, views};
use crate::text::{
    append_chars, append_str, chars_to_string, find_from, first_match_from, last_match,
    matches_at, rfind, str_chars, sub_vec, trim, trim_chars, trim_end, trim_end_to, trim_start,
    trim_start_from, u64_decimal, decimal, sub_string, string_views,
};
use crate::semantic_tags::{ns_prefix, opt_text, tag_ns_prefix, turn_tag_bag, TagNs};
use ainl_semantic_tagger::{SemanticTag, TagNamespace as TaggerNs};

verus! {

/// Separator between user message and assistant message in [`format_turn_payload`].
pub const TURN_USER_ASSISTANT_SEP: &'static str = "\n\n---\n\n";

/// The separator's characters.
pub open spec fn turn_sep() -> Seq<char> {
    "\n\n---\n\n"@
}

/// The marker that introduces the tool block.
pub open spec fn tools_marker() -> Seq<char> {
    "\n\n__AINL_TOOLS__\n"@
}

/// The tool block: each tool name followed by a newline.
pub open spec fn tool_block(tools: Seq<Seq<char>>) -> Seq<char>
    decreases tools.len(),
{
    if tools.len() == 0 {
        Seq::empty()
    } else {
        tool_block(tools.drop_last()) + tools.last() + "\n"@
    }
}

/// The canonical turn payload for `user`, `assistant` and `tools`.
pub open spec fn turn_payload(user: Seq<char>, assistant: Seq<char>, tools: Seq<Seq<char>>) -> Seq<
    char,
> {
    user + turn_sep() + assistant + if tools.len() > 0 {
        tools_marker() + tool_block(tools)
    } else {
        Seq::empty()
    }
}

/// The trimmed, non-empty entries of `ps`, in order.
pub open spec fn nonempty_trimmed(ps: Seq<Seq<char>>) -> Seq<Seq<char>>
    decreases ps.len(),
{
    if ps.len() == 0 {
        Seq::empty()
    } else {
        let init = nonempty_trimmed(ps.drop_last());
        if trim(ps.last()).len() > 0 {
            init.push(trim(ps.last()))
        } else {
            init
        }
    }
}

/// The trimmed, non-empty lines of `block` (`lines().map(trim).filter(non-empty)`).
pub open spec fn tool_lines(block: Seq<char>) -> Seq<Seq<char>> {
    nonempty_trimmed(pieces(block, '\n'))
}

/// The body before the last tools marker and the tool names after it (the whole text
/// and no tools when there is no marker).
pub open spec fn split_tool_block(text: Seq<char>) -> (Seq<char>, Seq<Seq<char>>) {
    let m = tools_marker();
    if exists|i: int| last_match(text, m, i) {
        let idx = choose|i: int| last_match(text, m, i);
        (text.subrange(0, idx), tool_lines(text.subrange(idx + m.len(), text.len() as int)))
    } else {
        (text, Seq::empty())
    }
}

/// The user part and, when the separator occurs, the assistant part of a payload body.
pub open spec fn split_user_assistant(rest: Seq<char>) -> (Seq<char>, Option<Seq<char>>) {
    let s = turn_sep();
    if exists|i: int| first_match_from(rest, 0, s, i) {
        let pos = choose|i: int| first_match_from(rest, 0, s, i);
        (
            trim_end(rest.subrange(0, pos)),
            Some(trim_start(rest.subrange(pos + s.len(), rest.len() as int))),
        )
    } else {
        (trim(rest), None)
    }
}

/// What [`parse_turn_payload`] answers for `text`: the user part, the assistant part when
/// the separator occurs, and the tool names.
pub open spec fn parsed_turn(text: Seq<char>) -> (Seq<char>, Option<Seq<char>>, Seq<Seq<char>>) {
    let (rest, tools) = split_tool_block(text);
    let (u, a) = split_user_assistant(rest);
    (u, a, tools)
}

/// Build the canonical turn payload: `user`, the separator, `assistant`, and when `tools`
/// is non-empty the tools marker followed by one tool name per line.
pub fn format_turn_payload(user_message: &str, assistant_response: &str, tools: &[String]) -> (r:
    String)
    ensures
        r@ == turn_payload(user_message@, assistant_response@, tools@.map_values(|t: String| t@)),
{
    let ghost tv = tools@.map_values(|t: String| t@);
    let mut s: Vec<char> = str_chars(user_message);
    append_str(&mut s, TURN_USER_ASSISTANT_SEP);
    append_str(&mut s, assistant_response);
    let ghost head = s@;
    if tools.len() > 0 {
        append_str(&mut s, "\n\n__AINL_TOOLS__\n");
        let ghost with_marker = s@;
        let mut i: usize = 0;
        assert(tools@.map_values(|t: String| t@).take(0) =~= Seq::<Seq<char>>::empty());
        assert(s@ =~= with_marker + tool_block(tv.take(0)));
        while i < tools.len()
            invariant
                i <= tools@.len(),
                tv == tools@.map_values(|t: String| t@),
                s@ == with_marker + tool_block(tv.take(i as int)),
            decreases tools.len() - i,
        {
            append_str(&mut s, tools[i].as_str());
            append_str(&mut s, "\n");
            assert(tv.take(i + 1).drop_last() =~= tv.take(i as int));
            assert(s@ =~= with_marker + tool_block(tv.take(i + 1)));
            i = i + 1;
        }
        assert(tv.take(tools@.len() as int) =~= tv);
    } else {
        assert(s@ =~= head + Seq::<char>::empty());
    }
    chars_to_string(s.as_slice())
}

fn nonempty_trimmed_exec(ps: &Vec<Vec<char>>) -> (r: Vec<String>)
    ensures
        r@.map_values(|t: String| t@) == nonempty_trimmed(views(ps@)),
{
    let mut out: Vec<String> = Vec::new();
    let mut i: usize = 0;
    while i < ps.len()
        invariant
            i <= ps@.len(),
            out@.map_values(|t: String| t@) == nonempty_trimmed(views(ps@).take(i as int)),
        decreases ps.len() - i,
    {
        assert(views(ps@).take(i + 1).drop_last() =~= views(ps@).take(i as int));
        assert(views(ps@).take(i + 1).last() == ps@[i as int]@);
        let t = trim_chars(ps[i].as_slice());
        if t.len() > 0 {
            let ghost old_out = out@;
            out.push(chars_to_string(t.as_slice()));
            assert(out@.map_values(|t: String| t@) =~= old_out.map_values(|t: String| t@).push(t@));
        }
        i = i + 1;
    }
    assert(views(ps@).take(ps@.len() as int) =~= views(ps@));
    out
}

/// Split a turn payload back into the user part (trailing whitespace removed), the
/// assistant part (leading whitespace removed) when the separator occurs, and the tool
/// names of the last tool block (trimmed, non-empty lines). Without a separator the whole
/// body, trimmed, is the user part.
pub fn parse_turn_payload(turn_text: &str) -> (r: (String, Option<String>, Vec<String>))
    ensures
        ({
            let p = parsed_turn(turn_text@);
            &&& r.0@ == p.0
            &&& match r.1 {
                Some(a) => p.1 == Some(a@),
                None => p.1 is None,
            }
            &&& r.2@.map_values(|t: String| t@) == p.2
        }),
{
    let text = str_chars(turn_text);
    let marker = str_chars("\n\n__AINL_TOOLS__\n");
    let ghost m = tools_marker();
    let (rest, tools): (Vec<char>, Vec<String>) = match rfind(text.as_slice(), marker.as_slice()) {
        Some(idx) => {
            proof {
                assert(last_match(text@, m, idx as int));
                let c = choose|i: int| last_match(text@, m, i);
                if c < idx {
                } else if c > idx {
                }
                assert(c == idx);
            }
            let body = sub_vec(text.as_slice(), 0, idx);
            let block = sub_vec(text.as_slice(), idx + marker.len(), text.len());
            let ps = split_nonempty(block.as_slice(), '\n');
            (body, nonempty_trimmed_exec(&ps))
        },
        None => {
            proof {
                if exists|i: int| last_match(text@, m, i) {
                    let c = choose|i: int| last_match(text@, m, i);
                    assert(matches_at(text@, c, m));
                }
            }
            (text.clone(), Vec::new())
        },
    };
    assert(rest@ == split_tool_block(text@).0);
    assert(tools@.map_values(|t: String| t@) == split_tool_block(text@).1);
    let sep = str_chars(TURN_USER_ASSISTANT_SEP);
    match find_from(rest.as_slice(), 0, sep.as_slice()) {
        Some(pos) => {
            proof {
                let s = turn_sep();
                let c = choose|i: int| first_match_from(rest@, 0, s, i);
                if c < pos {
                } else if c > pos {
                }
                assert(c == pos);
            }
            let ue = trim_end_to(rest.as_slice(), 0, pos);
            let a0 = trim_start_from(rest.as_slice(), pos + sep.len(), rest.len());
            let u = sub_string(rest.as_slice(), 0, ue);
            let a = sub_string(rest.as_slice(), a0, rest.len());
            assert(u@ == split_user_assistant(rest@).0);
            assert(Some(a@) == split_user_assistant(rest@).1);
            (u, Some(a), tools)
        },
        None => {
            proof {
                let s = turn_sep();
                if exists|i: int| first_match_from(rest@, 0, s, i) {
                    let c = choose|i: int| first_match_from(rest@, 0, s, i);
                    assert(matches_at(rest@, c, s));
                }
            }
            let t = trim_chars(rest.as_slice());
            assert(t@ == split_user_assistant(rest@).0);
            (chars_to_string(t.as_slice()), None, tools)
        },
    }
}


// ---------------------------------------------------------------------------
// Repeated tool cycles
// ---------------------------------------------------------------------------

/// The views of a sequence of strings.
pub open spec fn names(v: Seq<String>) -> Seq<Seq<char>> {
    v.map_values(|t: String| t@)
}

/// The first `w` tool names are immediately repeated (`a,b,a,b` for `w == 2`), with `w >= 2`.
pub open spec fn is_cycle(ts: Seq<Seq<char>>, w: int) -> bool {
    2 <= w && 2 * w <= ts.len() && ts.subrange(0, w) == ts.subrange(w, 2 * w)
}

/// Pattern name for a cycle of width `w`.
pub open spec fn cycle_name(w: nat) -> Seq<char> {
    "repeated_"@ + decimal(w) + "_tool_cycle"@
}

/// If the tool sequence starts with an immediately repeated run of length at least 2
/// (e.g. `a,b,a,b`), the synthetic pattern name for the shortest such run.
pub fn repeated_subsequence_pattern(tool_sequence: &[String]) -> (r: Option<String>)
    ensures
        match r {
            Some(s) => exists|w: int|
                #[trigger] is_cycle(names(tool_sequence@), w) && (forall|v: int|
                    2 <= v < w ==> !#[trigger] is_cycle(names(tool_sequence@), v)) && s@
                    == cycle_name(w as nat),
            None => forall|w: int| !#[trigger] is_cycle(names(tool_sequence@), w),
        },
{
    let ghost ts = names(tool_sequence@);
    let n = tool_sequence.len();
    if n < 4 {
        return None;
    }
    let mut w: usize = 2;
    while w <= n / 2
        invariant
            ts == names(tool_sequence@),
            n == tool_sequence@.len(),
            2 <= w <= n / 2 + 1,
            forall|v: int| 2 <= v < w ==> !#[trigger] is_cycle(ts, v),
        decreases n / 2 + 1 - w,
    {
        let mut k: usize = 0;
        let mut same = true;
        while k < w
            invariant
                ts == names(tool_sequence@),
                n == tool_sequence@.len(),
                2 <= w <= n / 2,
                k <= w,
                same == (forall|j: int| 0 <= j < k ==> #[trigger] ts[j] == ts[w + j]),
            decreases w - k,
        {
            let eq = tool_sequence[k] == tool_sequence[w + k];
            assert(ts[k as int] == tool_sequence@[k as int]@);
            assert(ts[w + k] == tool_sequence@[w + k]@);
            if !eq {
                same = false;
            }
            k = k + 1;
        }
        if same {
            assert(ts.subrange(0, w as int) =~= ts.subrange(w as int, 2 * w));
            let mut name: Vec<char> = Vec::new();
            append_str(&mut name, "repeated_");
            append_chars(&mut name, u64_decimal(w as u64).as_slice());
            append_str(&mut name, "_tool_cycle");
            assert(is_cycle(ts, w as int));
            return Some(chars_to_string(name.as_slice()));
        } else {
            proof {
                if is_cycle(ts, w as int) {
                    assert forall|j: int| 0 <= j < w implies #[trigger] ts[j] == ts[w + j] by {
                        assert(ts.subrange(0, w as int)[j] == ts.subrange(w as int, 2 * w)[j]);
                    }
                }
            }
        }
        w = w + 1;
    }
    None
}

/// A tag of the semantic tagger, carried through whole so that its confidence reaches the
/// caller.
#[verifier::external_type_specification]
#[verifier::external_body]
pub struct ExSemanticTag(SemanticTag);

/// The tags of a turn that can become graph-memory facts: all but the tool and tone tags,
/// in order.
pub open spec fn memory_tags(ts: Seq<(TagNs, Seq<char>)>) -> Seq<(TagNs, Seq<char>)> {
    ts.filter(|t: (TagNs, Seq<char>)| t.0 != TagNs::Tool && t.0 != TagNs::Tone)
}

/// `ts` lists the tags of `bag`, each once, in some order.
pub open spec fn tag_ordering(ts: Seq<(TagNs, Seq<char>)>, bag: vstd::multiset::Multiset<(TagNs, Seq<char>)>) -> bool {
    ts.to_multiset() == bag && ts.no_duplicates()
}

/// `v` is the memory tags of some ordering of the tags in `bag`.
pub open spec fn memory_tags_of_bag(v: Seq<(TagNs, Seq<char>)>, bag: vstd::multiset::Multiset<(TagNs, Seq<char>)>) -> bool {
    exists|ts: Seq<(TagNs, Seq<char>)>| #[trigger] tag_ordering(ts, bag) && v == memory_tags(ts)
}

/// The namespace and value of extracted tags.
pub open spec fn extracted_views(v: Seq<(TagNs, String, SemanticTag)>) -> Seq<(TagNs, Seq<char>)> {
    v.map_values(|t: (TagNs, String, SemanticTag)| (t.0, t.1@))
}

/// Calls `ainl_graph_extractor::extract_turn_semantic_tags_for_memory` without vitals. As the
/// crate's source shows, that is `ainl_semantic_tagger::tag_turn` on the same texts with the
/// tool and tone tags left out; each tag is handed back with its namespace and value. The
/// tagger's tags come in an order that may differ from run to run, so the contract says only
/// that the result is the memory tags of some ordering of them.
#[verifier::external_body]
fn turn_memory_tags(user: &str, assistant: Option<&str>, tools: &[String]) -> (r: Vec<(TagNs, String, SemanticTag)>)
    ensures
        memory_tags_of_bag(extracted_views(r@), turn_tag_bag(user@, opt_text(assistant), string_views(tools@))),
{
    ainl_graph_extractor::extract_turn_semantic_tags_for_memory(user, assistant, tools, None).into_iter().map(|t| (match t.namespace {
        TaggerNs::Topic => TagNs::Topic, TaggerNs::Preference => TagNs::Preference,
        TaggerNs::Correction => TagNs::Correction, TaggerNs::Behavior => TagNs::Behavior,
        TaggerNs::Task => TagNs::Task, TaggerNs::Tone => TagNs::Tone,
        TaggerNs::Tool => TagNs::Tool, TaggerNs::Domain => TagNs::Domain,
    }, t.value.clone(), t)).collect()
}

/// A fact as graph memory stores it: `prefix: value`.
pub open spec fn fact_text(t: (TagNs, Seq<char>)) -> Seq<char> {
    ns_prefix(t.0) + ": "@ + t.1
}

/// The memory tags among the tagger's tags `ts`, as fact texts, in order.
pub open spec fn memory_fact_texts(ts: Seq<(TagNs, Seq<char>)>) -> Seq<Seq<char>> {
    memory_tags(ts).map_values(|x: (TagNs, Seq<char>)| fact_text(x))
}

/// `ts` is an ordering of the tagger's tags for the parts of a turn payload: each of its
/// (namespace, value) pairs once.
pub open spec fn turn_tag_order(turn_text: Seq<char>, ts: Seq<(TagNs, Seq<char>)>) -> bool {
    let (u, a, t) = parsed_turn(turn_text);
    tag_ordering(ts, turn_tag_bag(u, a, t))
}

/// The texts of extracted facts.
pub open spec fn fact_views(v: Seq<(String, SemanticTag)>) -> Seq<Seq<char>> {
    v.map_values(|f: (String, SemanticTag)| f.0@)
}

/// Wraps structured extraction from `ainl-graph-extractor` for graph memory turns.
pub struct AinlExtractorBridge;

impl AinlExtractorBridge {
    /// Semantic facts of a turn payload (see [`format_turn_payload`]), each with the tag it
    /// came from (whose confidence the caller reads): the tagger's tags for the payload's
    /// parts, but for tool and tone tags, in the tagger's order.
    pub fn extract_facts(turn_text: &str, _agent_id: &str) -> (r: Vec<(String, SemanticTag)>)
        ensures
            exists|ts: Seq<(TagNs, Seq<char>)>|
                turn_tag_order(turn_text@, ts) && fact_views(r@) == #[trigger] memory_fact_texts(ts),
    {
        let (user, assistant, tools) = parse_turn_payload(turn_text);
        let a: Option<&str> = match &assistant {
            Some(x) => Some(x.as_str()),
            None => None,
        };
        proof {
            assert(string_views(tools@) =~= tools@.map_values(|t: String| t@));
        }
        let mut tags = turn_memory_tags(user.as_str(), a, tools.as_slice());
        let ghost ts = choose|ts: Seq<(TagNs, Seq<char>)>|
            #[trigger] tag_ordering(ts, turn_tag_bag(user@, opt_text(a), string_views(tools@)))
                && extracted_views(tags@) == memory_tags(ts);
        let ghost want = memory_fact_texts(ts);
        let mut out: Vec<(String, SemanticTag)> = Vec::new();
        let ghost all = tags@;
        let ghost views = extracted_views(all);
        assert(views.map_values(|x: (TagNs, Seq<char>)| fact_text(x)) == want);
        let n = tags.len();
        let mut i: usize = 0;
        while i < n
            invariant
                n == all.len(),
                i <= n,
                tags@ == all.subrange(i as int, n as int),
                views == extracted_views(all),
                views.map_values(|x: (TagNs, Seq<char>)| fact_text(x)) == want,
                fact_views(out@) == want.take(i as int),
            decreases n - i,
        {
            let t = tags.remove(0);
            assert(t == all[i as int]);
            assert(tags@ =~= all.subrange(i + 1, n as int));
            let mut v = str_chars(tag_ns_prefix(t.0));
            append_str(&mut v, ": ");
            append_str(&mut v, t.1.as_str());
            let ghost before = fact_views(out@);
            let f = chars_to_string(v.as_slice());
            assert(views[i as int] == (t.0, t.1@));
            assert(f@ == want[i as int]);
            out.push((f, t.2));
            assert(fact_views(out@) =~= before.push(want[i as int]));
            assert(want.take(i + 1) =~= want.take(i as int).push(want[i as int]));
            i = i + 1;
        }
        assert(want.take(n as int) =~= want);
        assert(turn_tag_order(turn_text@, ts));
        assert(fact_views(out@) == memory_fact_texts(ts));
        out
    }

    /// Returns a pattern name when a repeated tool subsequence is detected.
    pub fn extract_pattern(tool_sequence: &[String], agent_id: &str) -> (r: Option<String>)
        ensures
            match r {
                Some(s) => exists|w: int|
                    #[trigger] is_cycle(names(tool_sequence@), w) && (forall|v: int|
                        2 <= v < w ==> !#[trigger] is_cycle(names(tool_sequence@), v)) && s@
                        == cycle_name(w as nat),
                None => forall|w: int| !#[trigger] is_cycle(names(tool_sequence@), w),
            },
    {
        repeated_subsequence_pattern(tool_sequence)
    }
}


// ---------------------------------------------------------------------------
// Round trip
// ---------------------------------------------------------------------------

proof fn lemma_pieces_append_piece(x: Seq<char>, t: Seq<char>, c: char)
    requires
        x.len() == 0 || x.last() == c,
        t.len() > 0,
        forall|i: int| 0 <= i < t.len() ==> t[i] != c,
    ensures
        pieces(x + t, c) == pieces(x, c).push(t),
    decreases t.len(),
{
    let s = x + t;
    assert(s.drop_last() =~= x + t.drop_last());
    assert(s.last() == t.last());
    if t.len() == 1 {
        assert(x + t.drop_last() =~= x);
        if s.len() > 1 {
            assert(s[s.len() - 2] == x.last());
        }
        assert(t =~= seq![t.last()]);
    } else {
        lemma_pieces_append_piece(x, t.drop_last(), c);
        assert(s[s.len() - 2] == t[t.len() - 2]);
        assert(t.drop_last().push(t.last()) =~= t);
        assert(pieces(x, c).push(t.drop_last()).update(
            pieces(x, c).len() as int,
            t,
        ) =~= pieces(x, c).push(t));
    }
}

/// No tool name is empty or spans lines.
pub open spec fn plain_tool_names(ts: Seq<Seq<char>>) -> bool {
    &&& forall|k: int| 0 <= k < ts.len() ==> (#[trigger] ts[k]).len() > 0
    &&& forall|k: int, i: int|
        0 <= k < ts.len() && 0 <= i < ts[k].len() ==> #[trigger] ts[k][i] != '\n'
}

proof fn lemma_tool_block_pieces(ts: Seq<Seq<char>>)
    requires
        plain_tool_names(ts),
    ensures
        pieces(tool_block(ts), '\n') == ts,
        tool_block(ts).len() == 0 || tool_block(ts).last() == '\n',
        ts.len() > 0 ==> tool_block(ts).len() > 0 && tool_block(ts)[0] != '\n',
        forall|p: int|
            0 <= p < tool_block(ts).len() - 1 ==> !(#[trigger] tool_block(ts)[p] == '\n'
                && tool_block(ts)[p + 1] == '\n'),
    decreases ts.len(),
{
    reveal_strlit("\n");
    if ts.len() > 0 {
        let init = ts.drop_last();
        let t = ts.last();
        assert(plain_tool_names(init)) by {
            assert forall|k: int| 0 <= k < init.len() implies (#[trigger] init[k]).len() > 0 by {
                assert(init[k] == ts[k]);
            }
            assert forall|k: int, i: int| 0 <= k < init.len() && 0 <= i < init[k].len() implies
                #[trigger] init[k][i] != '\n' by {
                assert(init[k] == ts[k]);
            }
        }
        assert(ts[ts.len() - 1] == t);
        assert(t.len() > 0);
        assert(t[0] != '\n') by {
            assert(ts[ts.len() - 1][0] != '\n');
        }
        assert forall|i: int| 0 <= i < t.len() implies t[i] != '\n' by {
            assert(ts[ts.len() - 1][i] != '\n');
        }
        lemma_tool_block_pieces(init);
        let b = tool_block(init);
        lemma_pieces_append_piece(b, t, '\n');
        let bt = b + t;
        assert(tool_block(ts) =~= bt.push('\n'));
        assert(bt.push('\n').drop_last() =~= bt);
        assert(pieces(tool_block(ts), '\n') =~= ts);
        let nb = tool_block(ts);
        assert forall|p: int| 0 <= p < nb.len() - 1 implies !(#[trigger] nb[p] == '\n' && nb[p
            + 1] == '\n') by {
            if p < b.len() - 1 {
                assert(nb[p] == b[p] && nb[p + 1] == b[p + 1]);
            } else if p == b.len() - 1 {
                assert(nb[p + 1] == t[0]);
            } else if p < b.len() + t.len() - 1 {
                assert(nb[p] == t[p - b.len()]);
            } else {
                assert(nb[p] == t[t.len() - 1]);
            }
        }
        if b.len() > 0 {
            assert(nb[0] == b[0]);
        } else {
            assert(nb[0] == t[0]);
        }
    }
}

proof fn lemma_marker_chars()
    ensures
        tools_marker().len() == 17,
        tools_marker()[0] == '\n',
        tools_marker()[1] == '\n',
        tools_marker()[2] == '_',
        tools_marker()[16] == '\n',
        forall|d: int| 2 <= d < 16 ==> tools_marker()[d] != '\n',
{
    reveal_strlit("\n\n__AINL_TOOLS__\n");
}

proof fn lemma_marker_not_at(head: Seq<char>, block: Seq<char>, j: int)
    requires
        block.len() > 0,
        block[0] != '\n',
        forall|p: int| 0 <= p < block.len() - 1 ==> !(#[trigger] block[p] == '\n' && block[p + 1]
            == '\n'),
        head.len() < j,
    ensures
        !matches_at(head + tools_marker() + block, j, tools_marker()),
{
    let mk = tools_marker();
    let text = head + mk + block;
    let m = head.len() as int;
    lemma_marker_chars();
    if matches_at(text, j, mk) {
        let w = text.subrange(j, j + 17);
        assert(w[0] == text[j]);
        assert(w[1] == text[j + 1]);
        let d = j - m;
        if d <= 16 {
            assert(text[j] == mk[d]);
            if d == 16 {
                assert(text[j + 1] == block[0]);
            } else {
                assert(text[j + 1] == mk[d + 1]);
            }
        } else {
            let q = d - 17;
            assert(text[j] == block[q]);
            assert(text[j + 1] == block[q + 1]);
        }
    }
}

proof fn lemma_split_tool_block_of_payload(u: Seq<char>, a: Seq<char>, ts: Seq<Seq<char>>)
    requires
        ts.len() == 0 ==> !crate::text::contains(u + turn_sep() + a, tools_marker()),
        plain_tool_names(ts),
    ensures
        split_tool_block(turn_payload(u, a, ts)) == (u + turn_sep() + a, nonempty_trimmed(ts)),
{
    let sep = turn_sep();
    let mk = tools_marker();
    let text = turn_payload(u, a, ts);
    let head = u + sep + a;
    reveal_strlit("\n\n__AINL_TOOLS__\n");
    assert(mk.len() == 17);
    if ts.len() > 0 {
        let block = tool_block(ts);
        lemma_tool_block_pieces(ts);
        assert(text =~= head + mk + block);
        let m = head.len() as int;
        assert(text.subrange(m, m + 17) =~= mk);
        assert(matches_at(text, m, mk));
        assert forall|j: int| m < j implies !#[trigger] matches_at(text, j, mk) by {
            lemma_marker_not_at(head, block, j);
        }
        assert(last_match(text, mk, m));
        let c = choose|i: int| last_match(text, mk, i);
        assert(c == m);
        assert(text.subrange(0, m) =~= head);
        assert(text.subrange(m + 17, text.len() as int) =~= block);
    } else {
        assert(text =~= head);
        assert(!exists|i: int| last_match(text, mk, i)) by {
            if exists|i: int| last_match(text, mk, i) {
                let c = choose|i: int| last_match(text, mk, i);
                assert(matches_at(text, c, mk));
            }
        }
        assert(nonempty_trimmed(ts) =~= Seq::<Seq<char>>::empty());
    }
}

proof fn lemma_split_user_assistant_of_head(u: Seq<char>, a: Seq<char>)
    requires
        forall|j: int| 0 <= j < u.len() ==> !#[trigger] matches_at(u + turn_sep(), j, turn_sep()),
    ensures
        split_user_assistant(u + turn_sep() + a) == (trim_end(u), Some(trim_start(a))),
{
    let sep = turn_sep();
    let head = u + sep + a;
    reveal_strlit("\n\n---\n\n");
    assert(sep.len() == 7);
    let p = u.len() as int;
    assert(head.subrange(p, p + 7) =~= sep);
    assert forall|j: int| 0 <= j < p implies !#[trigger] matches_at(head, j, sep) by {
        if matches_at(head, j, sep) {
            assert(head.subrange(j, j + 7) =~= (u + sep).subrange(j, j + 7));
            assert(matches_at(u + sep, j, sep));
        }
    }
    assert(first_match_from(head, 0, sep, p));
    let c2 = choose|i: int| first_match_from(head, 0, sep, i);
    assert(c2 == p);
    assert(head.subrange(0, p) =~= u);
    assert(head.subrange(p + 7, head.len() as int) =~= a);
}

/// A payload built by [`format_turn_payload`] parses back into its parts: the user
/// message without trailing whitespace, the assistant response without leading
/// whitespace, and the trimmed non-empty tool names. It holds when the separator does
/// not occur in the user message (not even overlapping the separator that follows it),
/// when, without tools, the marker does not occur in the body, and when every tool name is
/// non-empty and on one line.
pub proof fn lemma_turn_payload_roundtrip(u: Seq<char>, a: Seq<char>, ts: Seq<Seq<char>>)
    requires
        forall|j: int| 0 <= j < u.len() ==> !#[trigger] matches_at(u + turn_sep(), j, turn_sep()),
        ts.len() == 0 ==> !crate::text::contains(u + turn_sep() + a, tools_marker()),
        plain_tool_names(ts),
    ensures
        parsed_turn(turn_payload(u, a, ts)) == (trim_end(u), Some(trim_start(a)), nonempty_trimmed(
            ts,
        )),
{
    lemma_split_tool_block_of_payload(u, a, ts);
    lemma_split_user_assistant_of_head(u, a);
}

} // verus!
