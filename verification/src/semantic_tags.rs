//! Semantic tags for graph-memory nodes: the runtime opt-out switch, the tagger's tags in
//! their canonical `namespace:value` form, and the deterministic fallbacks used when the
//! tagger returns nothing.

use vstd::prelude::*;
use ainl_semantic_tagger::TagNamespace as TaggerNs;
use crate::text::{
    append_chars, append_str, ascii_lower, chars_to_string, contains, contains_str, eq_str,
    lower_chars, owned, str_chars, string_views, sub_string, sub_vec, trim, trim_range,
};

verus! {

/// Namespace of a semantic tag.
#[derive(Debug, Clone, Copy, PartialEq, Eq, Structural)]
pub enum TagNs {
    Topic,
    Preference,
    Correction,
    Behavior,
    Task,
    Tone,
    Tool,
    Domain,
}

/// The views of tags: namespace and value (the tagger's confidence is not kept).
pub open spec fn tag_views(v: Seq<(TagNs, String)>) -> Seq<(TagNs, Seq<char>)> {
    v.map_values(|t: (TagNs, String)| (t.0, t.1@))
}

/// Name for the tags `ainl_semantic_tagger::tag_tool_names` gives the tool names `tools`.
pub uninterp spec fn tool_name_tags(tools: Seq<Seq<char>>) -> Seq<(TagNs, Seq<char>)>;

/// Name for the (namespace, value) pairs `ainl_semantic_tagger::tag_turn` gives a user
/// message, an optional assistant reply and the tool names of a turn, as a multiset: which
/// tags come out depends on the texts alone, their order does not (topic tags are collected
/// from a hash map).
pub uninterp spec fn turn_tag_bag(user: Seq<char>, assistant: Option<Seq<char>>, tools: Seq<Seq<char>>) -> vstd::multiset::Multiset<(TagNs, Seq<char>)>;

/// The view of an optional text.
pub open spec fn opt_text(o: Option<&str>) -> Option<Seq<char>> {
    match o {
        Some(s) => Some(s@),
        None => None,
    }
}

/// Calls `ainl_semantic_tagger::tag_tool_names`. The contract names the result; the crate's
/// source maps every non-blank name to a tag in the tool namespace, which is stated. Which
/// slug each name becomes (the tagger's alias table) is not restated.
#[verifier::external_body]
pub(crate) fn tag_tool_names(tools: &[String]) -> (r: Vec<(TagNs, String)>)
    ensures
        tag_views(r@) == tool_name_tags(string_views(tools@)),
        forall|i: int| 0 <= i < r@.len() ==> (#[trigger] r@[i]).0 == TagNs::Tool,
{
    ainl_semantic_tagger::tag_tool_names(tools).into_iter().map(|t| (match t.namespace {
        TaggerNs::Topic => TagNs::Topic, TaggerNs::Preference => TagNs::Preference,
        TaggerNs::Correction => TagNs::Correction, TaggerNs::Behavior => TagNs::Behavior,
        TaggerNs::Task => TagNs::Task, TaggerNs::Tone => TagNs::Tone,
        TaggerNs::Tool => TagNs::Tool, TaggerNs::Domain => TagNs::Domain,
    }, t.value)).collect()
}

/// Calls `ainl_semantic_tagger::tag_turn`. The contract names the tags as a multiset and, as
/// the crate's source shows, says each (namespace, value) pair comes out once; their order is
/// left open (topic, preference, tone, correction and tool inference is not restated).
#[verifier::external_body]
fn tag_turn(user: &str, assistant: Option<&str>, tools: &[String]) -> (r: Vec<(TagNs, String)>)
    ensures
        tag_views(r@).to_multiset() == turn_tag_bag(user@, opt_text(assistant), string_views(tools@)),
        tag_views(r@).no_duplicates(),
{
    ainl_semantic_tagger::tag_turn(user, assistant, tools).into_iter().map(|t| (match t.namespace {
        TaggerNs::Topic => TagNs::Topic, TaggerNs::Preference => TagNs::Preference,
        TaggerNs::Correction => TagNs::Correction, TaggerNs::Behavior => TagNs::Behavior,
        TaggerNs::Task => TagNs::Task, TaggerNs::Tone => TagNs::Tone,
        TaggerNs::Tool => TagNs::Tool, TaggerNs::Domain => TagNs::Domain,
    }, t.value)).collect()
}

/// The prefix of a namespace in canonical tag strings.
pub open spec fn ns_prefix(ns: TagNs) -> Seq<char> {
    match ns {
        TagNs::Topic => "topic"@,
        TagNs::Preference => "preference"@,
        TagNs::Correction => "correction"@,
        TagNs::Behavior => "behavior"@,
        TagNs::Task => "task"@,
        TagNs::Tone => "tone"@,
        TagNs::Tool => "tool"@,
        TagNs::Domain => "domain"@,
    }
}

/// The prefix of a namespace.
pub fn tag_ns_prefix(ns: TagNs) -> (r: &'static str)
    ensures
        r@ == ns_prefix(ns),
{
    match ns {
        TagNs::Topic => "topic",
        TagNs::Preference => "preference",
        TagNs::Correction => "correction",
        TagNs::Behavior => "behavior",
        TagNs::Task => "task",
        TagNs::Tone => "tone",
        TagNs::Tool => "tool",
        TagNs::Domain => "domain",
    }
}

/// A tag as `prefix:value`.
pub open spec fn canonical_tag(t: (TagNs, Seq<char>)) -> Seq<char> {
    ns_prefix(t.0) + ":"@ + t.1
}

/// The canonical strings of tags, in order.
pub open spec fn canonical_tags(ts: Seq<(TagNs, Seq<char>)>) -> Seq<Seq<char>> {
    ts.map_values(|t: (TagNs, Seq<char>)| canonical_tag(t))
}

/// The canonical string of one tag.
pub fn canonical_tag_string(t: &(TagNs, String)) -> (r: String)
    ensures
        r@ == canonical_tag((t.0, t.1@)),
{
    let mut v: Vec<char> = Vec::new();
    append_str(&mut v, tag_ns_prefix(t.0));
    append_str(&mut v, ":");
    let val = str_chars(t.1.as_str());
    append_chars(&mut v, val.as_slice());
    chars_to_string(v.as_slice())
}

fn canonical_strings(tags: &Vec<(TagNs, String)>) -> (r: Vec<String>)
    ensures
        string_views(r@) == canonical_tags(tag_views(tags@)),
{
    let mut out: Vec<String> = Vec::new();
    let mut i: usize = 0;
    while i < tags.len()
        invariant
            i <= tags@.len(),
            string_views(out@) == canonical_tags(tag_views(tags@)).take(i as int),
        decreases tags.len() - i,
    {
        let s = canonical_tag_string(&tags[i]);
        proof {
            assert(tag_views(tags@)[i as int] == (tags@[i as int].0, tags@[i as int].1@));
        }
        let ghost before = string_views(out@);
        out.push(s);
        assert(string_views(out@) =~= before.push(s@));
        i = i + 1;
        assert(string_views(out@) =~= canonical_tags(tag_views(tags@)).take(i as int));
    }
    assert(canonical_tags(tag_views(tags@)).take(tags@.len() as int) =~= canonical_tags(tag_views(tags@)));
    out
}

// ---------------------------------------------------------------------------
// Runtime switch
// ---------------------------------------------------------------------------

/// An explicit opt-out value: `0`, `false`, `no` or `off` (trimmed, ASCII case-insensitive).
pub open spec fn tagger_opt_out(v: Seq<char>) -> bool {
    let s = ascii_lower(trim(v));
    s == "0"@ || s == "false"@ || s == "no"@ || s == "off"@
}

/// Whether tagging writes are on, given the value of `AINL_TAGGER_ENABLED` (if set): on by
/// default, off only for an explicit opt-out value.
pub fn tagger_writes_enabled(env_value: Option<&str>) -> (r: bool)
    ensures
        r == match env_value {
            Some(v) => !tagger_opt_out(v@),
            None => true,
        },
{
    match env_value {
        Some(v) => {
            let cv = str_chars(v);
            let (a, b) = trim_range(cv.as_slice(), 0, cv.len());
            assert(cv@.subrange(0, cv@.len() as int) =~= cv@);
            let t = sub_vec(cv.as_slice(), a, b);
            let l = lower_chars(t.as_slice());
            let s = l.as_slice();
            !(eq_str(s, "0") || eq_str(s, "false") || eq_str(s, "no") || eq_str(s, "off"))
        },
        None => true,
    }
}

// ---------------------------------------------------------------------------
// Fallback tags
// ---------------------------------------------------------------------------

/// `tag` when `s` contains `word`, else nothing.
pub open spec fn topic_if(s: Seq<char>, word: Seq<char>, tag: Seq<char>) -> Seq<Seq<char>> {
    if contains(s, word) {
        seq![tag]
    } else {
        seq![]
    }
}

/// Fallback topics for a fact: `rust`, `serde`, `async`, `traits` by keyword (ASCII
/// case-insensitive), else `general` when the fact is not blank.
pub open spec fn fallback_facts(fact: Seq<char>) -> Seq<Seq<char>> {
    let s = ascii_lower(fact);
    let found = topic_if(s, "rust"@, "topic:rust"@) + topic_if(s, "serde"@, "topic:serde"@)
        + topic_if(s, "async"@, "topic:async"@) + topic_if(s, "trait"@, "topic:traits"@);
    if found.len() == 0 && trim(s).len() > 0 {
        seq!["topic:general"@]
    } else {
        found
    }
}

fn push_topic_if(out: &mut Vec<String>, s: &[char], word: &str, tag: &str)
    ensures
        string_views(final(out)@) == string_views(old(out)@) + topic_if(s@, word@, tag@),
{
    if contains_str(s, word) {
        out.push(owned(tag));
        assert(string_views(out@) =~= string_views(old(out)@) + seq![tag@]);
    } else {
        assert(string_views(out@) =~= string_views(old(out)@) + Seq::<Seq<char>>::empty());
    }
}

/// Deterministic topic tags for a fact when the tagger returns none.
pub fn fallback_fact_tags(fact: &str) -> (r: Vec<String>)
    ensures
        string_views(r@) == fallback_facts(fact@),
{
    let lv = lower_chars(str_chars(fact).as_slice());
    let s = lv.as_slice();
    let mut out: Vec<String> = Vec::new();
    assert(string_views(out@) =~= Seq::<Seq<char>>::empty());
    push_topic_if(&mut out, s, "rust", "topic:rust");
    push_topic_if(&mut out, s, "serde", "topic:serde");
    push_topic_if(&mut out, s, "async", "topic:async");
    push_topic_if(&mut out, s, "trait", "topic:traits");
    let (a, b) = trim_range(s, 0, s.len());
    assert(lv@.subrange(0, lv@.len() as int) =~= lv@);
    if out.len() == 0 && a != b {
        out.push(owned("topic:general"));
        assert(string_views(out@) =~= seq!["topic:general"@]);
    }
    out
}

/// Fallback tool tags: each non-blank call trimmed, in order, with `search_web` placed
/// before every `web_search`.
pub open spec fn fallback_tools(calls: Seq<Seq<char>>) -> Seq<Seq<char>>
    decreases calls.len(),
{
    if calls.len() == 0 {
        seq![]
    } else {
        let prev = fallback_tools(calls.drop_last());
        let v = trim(calls.last());
        if v.len() == 0 {
            prev
        } else if v == "web_search"@ {
            prev + seq!["search_web"@, v]
        } else {
            prev.push(v)
        }
    }
}

/// Deterministic tool tags when the tagger returns none.
pub fn fallback_tool_tags(tool_calls: &[String]) -> (r: Vec<String>)
    ensures
        string_views(r@) == fallback_tools(string_views(tool_calls@)),
{
    let mut out: Vec<String> = Vec::new();
    let mut i: usize = 0;
    while i < tool_calls.len()
        invariant
            i <= tool_calls@.len(),
            string_views(out@) == fallback_tools(string_views(tool_calls@).take(i as int)),
        decreases tool_calls.len() - i,
    {
        proof {
            assert(string_views(tool_calls@).take(i + 1).drop_last() =~= string_views(tool_calls@).take(i as int));
            assert(string_views(tool_calls@).take(i + 1).last() == tool_calls@[i as int]@);
        }
        let ghost before = string_views(out@);
        let cv = str_chars(tool_calls[i].as_str());
        let (a, b) = trim_range(cv.as_slice(), 0, cv.len());
        assert(cv@.subrange(0, cv@.len() as int) =~= cv@);
        if a != b {
            let v = sub_string(cv.as_slice(), a, b);
            let vv = str_chars(v.as_str());
            if eq_str(vv.as_slice(), "web_search") {
                out.push(owned("search_web"));
                out.push(v);
                assert(string_views(out@) =~= before + seq!["search_web"@, "web_search"@]);
            } else {
                out.push(v);
                assert(string_views(out@) =~= before.push(vv@));
            }
        }
        i = i + 1;
    }
    assert(string_views(tool_calls@).take(tool_calls@.len() as int) =~= string_views(tool_calls@));
    out
}

// ---------------------------------------------------------------------------
// Bridge
// ---------------------------------------------------------------------------

/// Tags for graph-memory nodes, from the semantic tagger with deterministic fallbacks.
pub struct SemanticTaggerBridge;

/// The tags of a fact, given the tagger's tags `ts` for it: none when writes are off; else
/// the canonical tags, or the fallback topics when the tagger has none.
pub open spec fn fact_tags(fact: Seq<char>, ts: Seq<(TagNs, Seq<char>)>, writes_enabled: bool) -> Seq<Seq<char>> {
    if !writes_enabled {
        seq![]
    } else {
        let t = canonical_tags(ts);
        if t.len() == 0 {
            fallback_facts(fact)
        } else {
            t
        }
    }
}

/// The tags of an episode's tool calls: none when writes are off; else the tagger's canonical
/// tool tags, or the fallback tool tags when it has none.
pub open spec fn episode_tags(calls: Seq<Seq<char>>, writes_enabled: bool) -> Seq<Seq<char>> {
    if !writes_enabled {
        seq![]
    } else {
        let t = canonical_tags(tool_name_tags(calls));
        if t.len() == 0 {
            fallback_tools(calls)
        } else {
            t
        }
    }
}

impl SemanticTaggerBridge {
    /// Category tags (`topic:…`, `preference:…`, …) for one fact string; `writes_enabled` is
    /// [`tagger_writes_enabled`] of the environment. The tags come in the tagger's order, which
    /// is some order of its tags for the fact.
    pub fn tag_fact(fact: &str, writes_enabled: bool) -> (r: Vec<String>)
        ensures
            exists|ts: Seq<(TagNs, Seq<char>)>|
                ts.to_multiset() == turn_tag_bag(fact@, None, Seq::<Seq<char>>::empty()) && ts.no_duplicates()
                    && string_views(r@) == #[trigger] fact_tags(fact@, ts, writes_enabled),
    {
        let no_tools: Vec<String> = Vec::new();
        assert(string_views(no_tools@) =~= Seq::<Seq<char>>::empty());
        let tags = tag_turn(fact, None, no_tools.as_slice());
        assert(fact_tags(fact@, tag_views(tags@), writes_enabled) == fact_tags(fact@, tag_views(tags@), writes_enabled));
        if !writes_enabled {
            let out: Vec<String> = Vec::new();
            assert(string_views(out@) =~= Seq::<Seq<char>>::empty());
            return out;
        }
        let strs = canonical_strings(&tags);
        if strs.len() == 0 {
            fallback_fact_tags(fact)
        } else {
            strs
        }
    }

    /// Tags (tool namespace) derived from an episode's tool-call sequence.
    pub fn tag_episode(tool_calls: &[String], writes_enabled: bool) -> (r: Vec<String>)
        ensures
            string_views(r@) == episode_tags(string_views(tool_calls@), writes_enabled),
    {
        if !writes_enabled {
            let out: Vec<String> = Vec::new();
            assert(string_views(out@) =~= Seq::<Seq<char>>::empty());
            return out;
        }
        let tags = tag_tool_names(tool_calls);
        let strs = canonical_strings(&tags);
        if strs.len() == 0 {
            fallback_tool_tags(tool_calls)
        } else {
            strs
        }
    }
}

/// When writes are off, no fact and no episode is tagged, whatever its text.
pub proof fn law_disabled_tagger_writes_nothing(fact: Seq<char>, ts: Seq<(TagNs, Seq<char>)>, calls: Seq<Seq<char>>)
    ensures
        fact_tags(fact, ts, false) == Seq::<Seq<char>>::empty(),
        episode_tags(calls, false) == Seq::<Seq<char>>::empty(),
{
}

/// When writes are on, a fact that is not blank always gets at least one tag, whatever the
/// tagger gave.
pub proof fn law_enabled_fact_tagged(fact: Seq<char>, ts: Seq<(TagNs, Seq<char>)>)
    requires
        trim(ascii_lower(fact)).len() > 0,
    ensures
        fact_tags(fact, ts, true).len() > 0,
{
}

} // verus!
