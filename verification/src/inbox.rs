//! Graph-memory inbox: how a node or edge written by the Python memory writer becomes a node
//! or edge of the agent's graph.
//!
//! The reader sees the JSON through [`JsonValue`]: strings, booleans, integers, arrays of
//! scalars and the fields of an object. Floating-point scores (confidences, strengths, edge
//! weights) are not held here: the plan says which field supplies each one, or which default
//! applies, and the host reads the number.

use vstd::prelude::*;
use crate::text::{ascii_lower, chars_to_string, eq_str, lower_chars, owned, starts_with, str_chars, string_views, sub_string};

verus! {

/// A JSON number: what `as_u64` and `as_i64` give, and its `f64` value cut to an `i64`.
#[derive(Debug, Clone, Copy, PartialEq, Eq, Structural)]
pub struct JsonNum {
    pub as_u64: Option<u64>,
    pub as_i64: Option<i64>,
    pub float_as_i64: i64,
}

/// A JSON value inside an array (nested arrays and objects are not looked into).
pub enum JsonItem {
    Null,
    Bool(bool),
    Num(JsonNum),
    Str(String),
    Compound,
}

/// A JSON value, as far as the inbox reader looks into it.
pub enum JsonValue {
    Null,
    Bool(bool),
    Num(JsonNum),
    Str(String),
    Array(Vec<JsonItem>),
    Object,
}

/// The value under `key` among an object's fields (keys are unique in a JSON object).
pub open spec fn lookup(fields: Seq<(String, JsonValue)>, key: Seq<char>) -> Option<JsonValue>
    decreases fields.len(),
{
    if fields.len() == 0 {
        None
    } else if fields[0].0@ == key {
        Some(fields[0].1)
    } else {
        lookup(fields.drop_first(), key)
    }
}

/// The string a value holds, if it is a string.
pub open spec fn as_str(v: Option<JsonValue>) -> Option<Seq<char>> {
    match v {
        Some(JsonValue::Str(s)) => Some(s@),
        _ => None,
    }
}

/// The string a value holds, or `d`.
pub open spec fn str_or(v: Option<JsonValue>, d: Seq<char>) -> Seq<char> {
    match as_str(v) {
        Some(s) => s,
        None => d,
    }
}

/// The unsigned integer a value holds, if it is one.
pub open spec fn as_u64(v: Option<JsonValue>) -> Option<u64> {
    match v {
        Some(JsonValue::Num(n)) => n.as_u64,
        _ => None,
    }
}

/// The boolean a value holds, if it is one.
pub open spec fn as_bool(v: Option<JsonValue>) -> Option<bool> {
    match v {
        Some(JsonValue::Bool(b)) => Some(b),
        _ => None,
    }
}

/// The value is a number.
pub open spec fn is_num(v: Option<JsonValue>) -> bool {
    match v {
        Some(JsonValue::Num(_)) => true,
        _ => false,
    }
}

/// The strings among array items, in order.
pub open spec fn item_strs(items: Seq<JsonItem>) -> Seq<Seq<char>>
    decreases items.len(),
{
    if items.len() == 0 {
        seq![]
    } else {
        let prev = item_strs(items.drop_last());
        match items.last() {
            JsonItem::Str(s) => prev.push(s@),
            _ => prev,
        }
    }
}

/// The strings of an array value; none for any other value.
pub open spec fn string_vec(v: Option<JsonValue>) -> Seq<Seq<char>> {
    match v {
        Some(JsonValue::Array(items)) => item_strs(items@),
        _ => seq![],
    }
}

/// The value of a decimal digit string.
pub open spec fn digits_value(s: Seq<char>) -> int
    decreases s.len(),
{
    if s.len() == 0 {
        0
    } else {
        digits_value(s.drop_last()) * 10 + (s.last() as int - '0' as int)
    }
}

/// Every character is an ASCII digit.
pub open spec fn all_digits(s: Seq<char>) -> bool {
    forall|i: int| 0 <= i < s.len() ==> '0' <= #[trigger] s[i] <= '9'
}

/// `str::parse::<i64>`: an optional sign, then at least one ASCII digit, in range.
pub open spec fn parse_i64(s: Seq<char>) -> Option<i64> {
    let neg = s.len() > 0 && s[0] == '-';
    let body = if s.len() > 0 && (s[0] == '-' || s[0] == '+') {
        s.drop_first()
    } else {
        s
    };
    if body.len() == 0 || !all_digits(body) {
        None
    } else {
        let v = if neg {
            -digits_value(body)
        } else {
            digits_value(body)
        };
        if i64::MIN <= v <= i64::MAX {
            Some(v as i64)
        } else {
            None
        }
    }
}

/// `value_as_i64`: an integer number, a float cut to an integer, or a string that parses.
pub open spec fn as_i64_loose(v: Option<JsonValue>) -> Option<i64> {
    match v {
        Some(JsonValue::Num(n)) => match n.as_i64 {
            Some(x) => Some(x),
            None => Some(n.float_as_i64),
        },
        Some(JsonValue::Str(s)) => parse_i64(s@),
        _ => None,
    }
}

/// The value under `key`.
pub fn lookup_field<'a>(fields: &'a [(String, JsonValue)], key: &str) -> (r: Option<&'a JsonValue>)
    ensures
        match r {
            Some(v) => lookup(fields@, key@) == Some(*v),
            None => lookup(fields@, key@) is None,
        },
{
    let mut i: usize = 0;
    assert(fields@.skip(0) =~= fields@);
    while i < fields.len()
        invariant
            i <= fields@.len(),
            lookup(fields@.skip(i as int), key@) == lookup(fields@, key@),
        decreases fields.len() - i,
    {
        assert(fields@.skip(i as int)[0] == fields@[i as int]);
        assert(fields@.skip(i as int).drop_first() =~= fields@.skip(i + 1));
        let k = str_chars(fields[i].0.as_str());
        if eq_str(k.as_slice(), key) {
            return Some(&fields[i].1);
        }
        i = i + 1;
    }
    None
}

/// The string under `key`, if it is a string.
pub fn field_str(fields: &[(String, JsonValue)], key: &str) -> (r: Option<String>)
    ensures
        match r {
            Some(s) => as_str(lookup(fields@, key@)) == Some(s@),
            None => as_str(lookup(fields@, key@)) is None,
        },
{
    match lookup_field(fields, key) {
        Some(JsonValue::Str(s)) => Some(s.clone()),
        _ => None,
    }
}

/// The string under `key`, or `d`.
pub fn field_str_or(fields: &[(String, JsonValue)], key: &str, d: &str) -> (r: String)
    ensures
        r@ == str_or(lookup(fields@, key@), d@),
{
    match field_str(fields, key) {
        Some(s) => s,
        None => owned(d),
    }
}

/// The unsigned integer under `key`.
pub fn field_u64(fields: &[(String, JsonValue)], key: &str) -> (r: Option<u64>)
    ensures
        r == as_u64(lookup(fields@, key@)),
{
    match lookup_field(fields, key) {
        Some(JsonValue::Num(n)) => n.as_u64,
        _ => None,
    }
}

/// The boolean under `key`.
pub fn field_bool(fields: &[(String, JsonValue)], key: &str) -> (r: Option<bool>)
    ensures
        r == as_bool(lookup(fields@, key@)),
{
    match lookup_field(fields, key) {
        Some(JsonValue::Bool(b)) => Some(*b),
        _ => None,
    }
}

/// Whether the value under `key` is a number.
pub fn field_is_num(fields: &[(String, JsonValue)], key: &str) -> (r: bool)
    ensures
        r == is_num(lookup(fields@, key@)),
{
    match lookup_field(fields, key) {
        Some(JsonValue::Num(_)) => true,
        _ => false,
    }
}

/// The strings among array items.
pub fn items_strings(items: &[JsonItem]) -> (r: Vec<String>)
    ensures
        string_views(r@) == item_strs(items@),
{
    let mut out: Vec<String> = Vec::new();
    let mut i: usize = 0;
    while i < items.len()
        invariant
            i <= items@.len(),
            string_views(out@) == item_strs(items@.take(i as int)),
        decreases items.len() - i,
    {
        proof {
            assert(items@.take(i + 1).drop_last() =~= items@.take(i as int));
            assert(items@.take(i + 1).last() == items@[i as int]);
        }
        match &items[i] {
            JsonItem::Str(s) => {
                let ghost before = string_views(out@);
                out.push(s.clone());
                assert(string_views(out@) =~= before.push(s@));
            },
            _ => {},
        }
        i = i + 1;
    }
    assert(items@.take(items@.len() as int) =~= items@);
    out
}

/// The strings of the array under `key`.
pub fn value_strings(v: Option<&JsonValue>) -> (r: Vec<String>)
    ensures
        string_views(r@) == string_vec(match v {
            Some(x) => Some(*x),
            None => None,
        }),
{
    match v {
        Some(JsonValue::Array(items)) => items_strings(items.as_slice()),
        _ => {
            let out: Vec<String> = Vec::new();
            assert(string_views(out@) =~= Seq::<Seq<char>>::empty());
            out
        },
    }
}

/// `str::parse::<i64>` on characters.
pub fn parse_i64_chars(s: &[char]) -> (r: Option<i64>)
    ensures
        r == parse_i64(s@),
{
    let n = s.len();
    let neg = n > 0 && s[0] == '-';
    let start: usize = if n > 0 && (s[0] == '-' || s[0] == '+') {
        1
    } else {
        0
    };
    let ghost body = if s@.len() > 0 && (s@[0] == '-' || s@[0] == '+') {
        s@.drop_first()
    } else {
        s@
    };
    assert(body =~= s@.skip(start as int));
    if start == n {
        return None;
    }
    // Accumulate the magnitude, stopping once it leaves the i64 range.
    let limit: u64 = if neg {
        0x8000_0000_0000_0000
    } else {
        0x7FFF_FFFF_FFFF_FFFF
    };
    let mut acc: u64 = 0;
    let mut over = false;
    let mut i: usize = start;
    while i < n
        invariant
            start <= i <= n,
            n == s@.len(),
            start == n - body.len(),
            body =~= s@.skip(start as int),
            body == (if s@.len() > 0 && (s@[0] == '-' || s@[0] == '+') {
                s@.drop_first()
            } else {
                s@
            }),
            neg == (s@.len() > 0 && s@[0] == '-'),
            forall|k: int| 0 <= k < i - start ==> '0' <= #[trigger] body[k] <= '9',
            !over ==> acc == digits_value(body.take(i - start)) && acc <= limit,
            over ==> digits_value(body.take(i - start)) > limit,
            limit == if neg { 0x8000_0000_0000_0000u64 } else { 0x7FFF_FFFF_FFFF_FFFFu64 },
        decreases n - i,
    {
        let c = s[i];
        if !('0' <= c && c <= '9') {
            assert(!all_digits(body)) by {
                assert(body[i - start] == c);
                assert(!('0' <= body[i - start] <= '9'));
            }
            assert(parse_i64(s@) is None);
            return None;
        }
        proof {
            assert(body.take(i - start + 1).drop_last() =~= body.take(i - start));
            assert(body.take(i - start + 1).last() == c);
            lemma_digits_value_nonneg(body.take(i - start));
        }
        let d = (c as u32 - '0' as u32) as u64;
        if !over {
            if acc > (limit - d) / 10 {
                over = true;
                assert(digits_value(body.take(i - start + 1)) > limit) by (nonlinear_arith)
                    requires
                        digits_value(body.take(i - start + 1)) == acc * 10 + d,
                        acc > (limit - d) / 10,
                        d <= 9,
                        limit >= 9,
                ;
            } else {
                assert(acc * 10 + d <= limit) by (nonlinear_arith)
                    requires
                        acc <= (limit - d) / 10,
                        d <= 9,
                        limit >= 9,
                ;
                acc = acc * 10 + d;
            }
        } else {
            proof {
                lemma_digits_value_nonneg(body.take(i - start));
            }
        }
        i = i + 1;
    }
    assert(body.take(n - start) =~= body);
    if over {
        return None;
    }
    if neg {
        if acc == 0x8000_0000_0000_0000 {
            Some(i64::MIN)
        } else {
            let a = acc as i64;
            Some(-a)
        }
    } else {
        Some(acc as i64)
    }
}

proof fn lemma_digits_value_nonneg(s: Seq<char>)
    requires
        all_digits(s),
    ensures
        digits_value(s) >= 0,
    decreases s.len(),
{
    if s.len() > 0 {
        lemma_digits_value_nonneg(s.drop_last());
    }
}

/// `value_as_i64` of a value.
pub fn value_i64_loose(v: Option<&JsonValue>) -> (r: Option<i64>)
    ensures
        r == as_i64_loose(match v {
            Some(x) => Some(*x),
            None => None,
        }),
{
    match v {
        Some(JsonValue::Num(n)) => match n.as_i64 {
            Some(x) => Some(x),
            None => Some(n.float_as_i64),
        },
        Some(JsonValue::Str(s)) => {
            let c = str_chars(s.as_str());
            parse_i64_chars(c.as_slice())
        },
        _ => None,
    }
}

// ---------------------------------------------------------------------------
// Identifiers
// ---------------------------------------------------------------------------

/// Name for what `uuid::Uuid::parse_str` accepts: the UUID as an integer, or `None` when the
/// text is not a UUID.
pub uninterp spec fn parsed_uuid(s: Seq<char>) -> Option<u128>;

/// Name for `uuid::Uuid::new_v5(&Uuid::NAMESPACE_URL, s)` as an integer: the stable UUID of an
/// inbox id.
pub uninterp spec fn stable_uuid(s: Seq<char>) -> u128;

/// Calls `uuid::Uuid::parse_str`; the contract names the result (the accepted spellings of a
/// UUID are not restated).
#[verifier::external_body]
fn parse_uuid(s: &str) -> (r: Option<u128>)
    ensures
        r == parsed_uuid(s@),
{
    uuid::Uuid::parse_str(s).ok().map(|u| u.as_u128())
}

/// Calls `uuid::Uuid::new_v5` in the URL namespace on the bytes of `s`; the contract names
/// the result (SHA-1 based, deterministic in `s`).
#[verifier::external_body]
fn stable_uuid_from_inbox_id(s: &str) -> (r: u128)
    ensures
        r == stable_uuid(s@),
{
    uuid::Uuid::new_v5(&uuid::Uuid::NAMESPACE_URL, s.as_bytes()).as_u128()
}

/// The UUID of a string value that parses as one, else the stable UUID of that string, else
/// the stable UUID of `fallback`.
pub open spec fn uuid_or_stable(v: Option<JsonValue>, fallback: Seq<char>) -> u128 {
    match as_str(v) {
        Some(s) => match parsed_uuid(s) {
            Some(u) => u,
            None => stable_uuid(s),
        },
        None => stable_uuid(fallback),
    }
}

/// The UUID of a string value that parses as one, else the stable UUID of that string, else
/// the stable UUID of `fallback`.
pub fn parse_uuid_or_stable(v: Option<&JsonValue>, fallback: &str) -> (r: u128)
    ensures
        r == uuid_or_stable(match v {
            Some(x) => Some(*x),
            None => None,
        }, fallback@),
{
    match v {
        Some(JsonValue::Str(s)) => match parse_uuid(s.as_str()) {
            Some(u) => u,
            None => stable_uuid_from_inbox_id(s.as_str()),
        },
        _ => stable_uuid_from_inbox_id(fallback),
    }
}

/// A UUID text, or the stable UUID of the text.
pub open spec fn uuid_of_text(s: Seq<char>) -> u128 {
    match parsed_uuid(s) {
        Some(u) => u,
        None => stable_uuid(s),
    }
}

/// A UUID text, or the stable UUID of the text.
pub fn uuid_for_text(s: &str) -> (r: u128)
    ensures
        r == uuid_of_text(s@),
{
    match parse_uuid(s) {
        Some(u) => u,
        None => stable_uuid_from_inbox_id(s),
    }
}

// ---------------------------------------------------------------------------
// Nodes
// ---------------------------------------------------------------------------

/// Inbox metadata feature that marks tagger-enriched semantic nodes.
pub const REQUIRES_AINL_TAGGER: &'static str = "requires_ainl_tagger";

/// Where a floating-point score comes from.
#[derive(Debug, Clone, Copy, PartialEq, Eq, Structural)]
pub enum Score {
    /// The number in the score's payload field.
    FromField,
    /// The default, in hundredths.
    Default(u32),
}

/// One inbox node as the Python writer stores it.
pub struct InboxEnvelope {
    /// The raw node is a JSON object.
    pub is_object: bool,
    /// Its top-level fields.
    pub fields: Vec<(String, JsonValue)>,
    /// The fields of its `payload` object (none when it has no payload object).
    pub payload: Vec<(String, JsonValue)>,
    /// `created_at` as a number (0 when absent), cut to whole seconds.
    pub created_at_secs: i64,
}

/// A semantic (fact) node; its confidence comes from the payload's `confidence`.
pub struct SemanticPlan {
    pub fact: String,
    pub confidence: Score,
    pub source_turn_id: u128,
    pub tags: Vec<String>,
    pub source_episode_id: String,
}

/// An episode node; `vitals_trust` says whether the payload's `vitals_trust` number is kept.
pub struct EpisodePlan {
    pub turn_id: u128,
    pub timestamp: i64,
    pub tool_calls: Vec<String>,
    pub delegation_to: Option<String>,
    pub tags: Vec<String>,
    pub turn_index: u32,
    pub user_message_tokens: u32,
    pub assistant_response_tokens: u32,
    pub persona_signals_emitted: Vec<String>,
    pub flagged: bool,
    pub conversation_id: String,
    pub follows_episode_id: Option<String>,
    pub user_message: Option<String>,
    pub assistant_response: Option<String>,
    /// Replaces the invoked tools when present.
    pub tools_invoked: Option<Vec<String>>,
    pub vitals_gate: Option<String>,
    pub vitals_phase: Option<String>,
    pub vitals_trust: bool,
}

/// A procedural node; its confidence comes from the payload's `confidence`.
pub struct ProceduralPlan {
    pub pattern_name: String,
    pub tool_sequence: Vec<String>,
    pub confidence: Score,
    pub compiled_graph: Vec<u8>,
    pub label: String,
    pub trace_id: Option<String>,
    pub patch_version: u32,
}

/// A persona node; its strength comes from the payload's `strength`.
pub struct PersonaPlan {
    pub trait_name: String,
    pub strength: Score,
    pub learned_from: Vec<u128>,
    pub agent_id: String,
}

/// A patch record, imported as a procedural node (confidence 0.75).
pub struct PatchPlan {
    pub pattern_name: String,
    pub source_episode_ids: Vec<String>,
    pub patch_version: u32,
    pub label: String,
    pub retired: bool,
    pub trace_id: Option<String>,
}

/// The kind of an imported node, with what the reader decided for it.
pub enum InboxNodeKind {
    Semantic(SemanticPlan),
    Episode(EpisodePlan),
    Procedural(ProceduralPlan),
    Persona(PersonaPlan),
    Patch(PatchPlan),
}

/// An imported node.
pub struct InboxNode {
    pub id: u128,
    pub agent_id: String,
    pub kind: InboxNodeKind,
}

/// The views of an optional string.
pub open spec fn opt_view(o: Option<String>) -> Option<Seq<char>> {
    match o {
        Some(s) => Some(s@),
        None => None,
    }
}

/// A non-empty string, if the option holds one.
pub open spec fn non_empty(o: Option<Seq<char>>) -> Option<Seq<char>> {
    match o {
        Some(s) => if s.len() > 0 {
            Some(s)
        } else {
            None
        },
        None => None,
    }
}

/// The score of a field: the field's number, else the default.
pub open spec fn score_of(v: Option<JsonValue>, default_hundredths: u32) -> Score {
    if is_num(v) {
        Score::FromField
    } else {
        Score::Default(default_hundredths)
    }
}

/// Skip a semantic node that carries tags when the inbox requires the tagger and this build
/// has none.
pub open spec fn skip_semantic(features: Seq<Seq<char>>, tags: Seq<Seq<char>>, cfg_tagger: bool) -> bool {
    !cfg_tagger && features.contains(REQUIRES_AINL_TAGGER@) && tags.len() > 0
}

/// Whether a semantic node is skipped by the tagger policy.
pub fn skip_semantic_for_tagger_policy(source_features: &[String], tags: &[String], cfg_tagger: bool) -> (r: bool)
    ensures
        r == skip_semantic(string_views(source_features@), string_views(tags@), cfg_tagger),
{
    if cfg_tagger {
        return false;
    }
    let mut found = false;
    let mut i: usize = 0;
    while i < source_features.len()
        invariant
            i <= source_features@.len(),
            found == exists|k: int| 0 <= k < i && source_features@[k]@ == REQUIRES_AINL_TAGGER@,
        decreases source_features.len() - i,
    {
        let c = str_chars(source_features[i].as_str());
        if eq_str(c.as_slice(), REQUIRES_AINL_TAGGER) {
            found = true;
        }
        i = i + 1;
    }
    proof {
        let fv = string_views(source_features@);
        if found {
            let k = choose|k: int| 0 <= k < i && source_features@[k]@ == REQUIRES_AINL_TAGGER@;
            assert(fv[k] == REQUIRES_AINL_TAGGER@);
        } else {
            assert(!fv.contains(REQUIRES_AINL_TAGGER@)) by {
                if fv.contains(REQUIRES_AINL_TAGGER@) {
                    let k = choose|k: int| 0 <= k < fv.len() && fv[k] == REQUIRES_AINL_TAGGER@;
                    assert(source_features@[k]@ == REQUIRES_AINL_TAGGER@);
                }
            }
        }
    }
    found && tags.len() > 0
}

/// The node's inbox id (`unknown` when missing).
pub open spec fn node_id_text(env: InboxEnvelope) -> Seq<char> {
    str_or(lookup(env.fields@, "id"@), "unknown"@)
}

/// The node's label (empty when missing).
pub open spec fn node_label(env: InboxEnvelope) -> Seq<char> {
    str_or(lookup(env.fields@, "label"@), seq![])
}

/// The node's type, ASCII-lowercased.
pub open spec fn node_type_of(env: InboxEnvelope) -> Seq<char> {
    ascii_lower(str_or(lookup(env.fields@, "node_type"@), seq![]))
}

/// The node's tags.
pub open spec fn node_tags(env: InboxEnvelope) -> Seq<Seq<char>> {
    string_vec(lookup(env.fields@, "tags"@))
}

/// The fact of a semantic node: the payload's non-empty `fact`, else the non-empty label,
/// else a placeholder naming the inbox id.
pub open spec fn semantic_fact(env: InboxEnvelope) -> Seq<char> {
    match non_empty(as_str(lookup(env.payload@, "fact"@))) {
        Some(f) => f,
        None => if node_label(env).len() > 0 {
            node_label(env)
        } else {
            "(inbox semantic "@ + node_id_text(env) + ")"@
        },
    }
}

/// The decided semantic node matches the envelope.
pub open spec fn semantic_ok(env: InboxEnvelope, p: SemanticPlan) -> bool {
    let pl = env.payload@;
    &&& p.fact@ == semantic_fact(env)
    &&& p.confidence == score_of(lookup(pl, "confidence"@), 70)
    &&& p.source_turn_id == uuid_or_stable(lookup(pl, "source_turn_id"@), node_id_text(env))
    &&& string_views(p.tags@) == node_tags(env)
    &&& p.source_episode_id@ == str_or(lookup(pl, "source_episode_id"@), seq![])
}

/// The payload's `tool_calls` when present, else its `tools`.
pub open spec fn tool_calls_field(pl: Seq<(String, JsonValue)>) -> Option<JsonValue> {
    match lookup(pl, "tool_calls"@) {
        Some(v) => Some(v),
        None => lookup(pl, "tools"@),
    }
}

/// An unsigned payload integer cut to 32 bits, with a default.
pub open spec fn u32_field(pl: Seq<(String, JsonValue)>, key: Seq<char>, d: u64) -> u32 {
    (match as_u64(lookup(pl, key)) {
        Some(x) => x,
        None => d,
    }) as u32
}

/// The decided episode node matches the envelope.
pub open spec fn episode_ok(env: InboxEnvelope, p: EpisodePlan) -> bool {
    let pl = env.payload@;
    let invoked = string_vec(lookup(pl, "tools_invoked"@));
    &&& p.turn_id == uuid_or_stable(lookup(pl, "turn_id"@), node_id_text(env))
    &&& p.timestamp == match as_i64_loose(lookup(pl, "timestamp"@)) {
        Some(t) => t,
        None => env.created_at_secs,
    }
    &&& string_views(p.tool_calls@) == string_vec(tool_calls_field(pl))
    &&& opt_view(p.delegation_to) == as_str(lookup(pl, "delegation_to"@))
    &&& string_views(p.tags@) == node_tags(env)
    &&& p.turn_index == u32_field(pl, "turn_index"@, 0)
    &&& p.user_message_tokens == u32_field(pl, "user_message_tokens"@, 0)
    &&& p.assistant_response_tokens == u32_field(pl, "assistant_response_tokens"@, 0)
    &&& string_views(p.persona_signals_emitted@) == string_vec(lookup(pl, "persona_signals_emitted"@))
    &&& p.flagged == (as_bool(lookup(pl, "flagged"@)) == Some(true))
    &&& p.conversation_id@ == str_or(lookup(pl, "conversation_id"@), seq![])
    &&& opt_view(p.follows_episode_id) == as_str(lookup(pl, "follows_episode_id"@))
    &&& opt_view(p.user_message) == as_str(lookup(pl, "user_message"@))
    &&& opt_view(p.assistant_response) == as_str(lookup(pl, "assistant_response"@))
    &&& match p.tools_invoked {
        Some(v) => invoked.len() > 0 && string_views(v@) == invoked,
        None => invoked.len() == 0,
    }
    &&& opt_view(p.vitals_gate) == as_str(lookup(pl, "vitals_gate"@))
    &&& opt_view(p.vitals_phase) == as_str(lookup(pl, "vitals_phase"@))
    &&& p.vitals_trust == is_num(lookup(pl, "vitals_trust"@))
}

/// The bytes among array items: unsigned integers up to 255, in order.
pub open spec fn item_bytes(items: Seq<JsonItem>) -> Seq<u8>
    decreases items.len(),
{
    if items.len() == 0 {
        seq![]
    } else {
        let prev = item_bytes(items.drop_last());
        match items.last() {
            JsonItem::Num(n) => match n.as_u64 {
                Some(u) => if u <= 255 {
                    prev.push(u as u8)
                } else {
                    prev
                },
                None => prev,
            },
            _ => prev,
        }
    }
}

/// The compiled graph of a procedural payload.
pub open spec fn graph_bytes(v: Option<JsonValue>) -> Seq<u8> {
    match v {
        Some(JsonValue::Array(items)) => item_bytes(items@),
        _ => seq![],
    }
}

/// The decided procedural node matches the envelope.
pub open spec fn procedural_ok(env: InboxEnvelope, p: ProceduralPlan) -> bool {
    let pl = env.payload@;
    &&& p.pattern_name@ == str_or(lookup(pl, "pattern_name"@), node_label(env))
    &&& string_views(p.tool_sequence@) == string_vec(lookup(pl, "tool_sequence"@))
    &&& p.confidence == score_of(lookup(pl, "confidence"@), 75)
    &&& p.compiled_graph@ == graph_bytes(lookup(pl, "compiled_graph"@))
    &&& p.label@ == str_or(lookup(pl, "label"@), seq![])
    &&& opt_view(p.trace_id) == as_str(lookup(pl, "trace_id"@))
    &&& p.patch_version == u32_field(pl, "patch_version"@, 1)
}

/// The UUIDs among array items that parse as UUIDs, in order.
pub open spec fn item_uuids(items: Seq<JsonItem>) -> Seq<u128>
    decreases items.len(),
{
    if items.len() == 0 {
        seq![]
    } else {
        let prev = item_uuids(items.drop_last());
        match items.last() {
            JsonItem::Str(s) => match parsed_uuid(s@) {
                Some(u) => prev.push(u),
                None => prev,
            },
            _ => prev,
        }
    }
}

/// The episodes a persona trait was learned from.
pub open spec fn learned_uuids(v: Option<JsonValue>) -> Seq<u128> {
    match v {
        Some(JsonValue::Array(items)) => item_uuids(items@),
        _ => seq![],
    }
}

/// The trait of a persona node: the payload's `trait_name`, else the label without a
/// `persona:` prefix.
pub open spec fn persona_trait(env: InboxEnvelope) -> Seq<char> {
    match as_str(lookup(env.payload@, "trait_name"@)) {
        Some(t) => t,
        None => if starts_with(node_label(env), "persona:"@) {
            node_label(env).skip(8)
        } else {
            node_label(env)
        },
    }
}

/// The decided persona node matches the envelope; `writer` is the inbox owner's agent id.
pub open spec fn persona_ok(env: InboxEnvelope, writer: Seq<char>, p: PersonaPlan) -> bool {
    let pl = env.payload@;
    &&& p.trait_name@ == persona_trait(env)
    &&& p.strength == score_of(lookup(pl, "strength"@), 50)
    &&& p.learned_from@ == learned_uuids(lookup(pl, "learned_from"@))
    &&& p.agent_id@ == str_or(lookup(env.fields@, "agent_id"@), writer)
}

/// The pattern of a patch: the payload's non-empty `pattern_name`, else its non-empty
/// `label_name`, else the label.
pub open spec fn patch_pattern(env: InboxEnvelope) -> Seq<char> {
    let pl = env.payload@;
    match non_empty(as_str(lookup(pl, "pattern_name"@))) {
        Some(p) => p,
        None => match non_empty(as_str(lookup(pl, "label_name"@))) {
            Some(l) => l,
            None => node_label(env),
        },
    }
}

/// A patch is retired when `retired_at` is present and not null.
pub open spec fn retired_of(v: Option<JsonValue>) -> bool {
    match v {
        Some(JsonValue::Null) => false,
        Some(_) => true,
        None => false,
    }
}

/// The decided patch matches the envelope.
pub open spec fn patch_ok(env: InboxEnvelope, p: PatchPlan) -> bool {
    let pl = env.payload@;
    let version: u64 = match as_u64(lookup(pl, "patch_version"@)) {
        Some(x) => x,
        None => 1,
    };
    &&& p.pattern_name@ == patch_pattern(env)
    &&& string_views(p.source_episode_ids@) == string_vec(lookup(pl, "source_episode_ids"@))
    &&& p.patch_version == (if version < 1 {
        1u64
    } else {
        version
    }) as u32
    &&& p.label@ == str_or(lookup(pl, "label_name"@), seq![])
    &&& p.retired == retired_of(lookup(pl, "retired_at"@))
    &&& opt_view(p.trace_id) == non_empty(as_str(lookup(pl, "parent_patch_id"@)))
}

/// The node kinds the reader imports: 1 semantic, 2 episode, 3 procedural, 4 persona,
/// 5 patch, 0 anything else.
pub open spec fn kind_code(t: Seq<char>) -> u8 {
    if t == "semantic"@ {
        1
    } else if t == "episodic"@ || t == "episode"@ {
        2
    } else if t == "procedural"@ {
        3
    } else if t == "persona"@ {
        4
    } else if t == "patch"@ {
        5
    } else {
        0
    }
}

/// The graph-node kind each imported node type (after ASCII lowercasing) becomes: semantic 1,
/// episodic or episode 2, procedural 3, persona 4, patch 5; any other type 0 (not imported).
pub open spec fn imported_kind(t: Seq<char>) -> u8 {
    if t == "procedural"@ {
        3
    } else if t == "semantic"@ {
        1
    } else if t == "episode"@ || t == "episodic"@ {
        2
    } else if t == "persona"@ {
        4
    } else if t == "patch"@ {
        5
    } else {
        0
    }
}

/// The node type names differ from one another.
proof fn lemma_node_type_names_distinct()
    ensures
        "semantic"@ != "episodic"@,
        "semantic"@ != "episode"@,
        "semantic"@ != "procedural"@,
        "semantic"@ != "persona"@,
        "semantic"@ != "patch"@,
        "episodic"@ != "episode"@,
        "episodic"@ != "procedural"@,
        "episodic"@ != "persona"@,
        "episodic"@ != "patch"@,
        "episode"@ != "procedural"@,
        "episode"@ != "persona"@,
        "episode"@ != "patch"@,
        "procedural"@ != "persona"@,
        "procedural"@ != "patch"@,
        "persona"@ != "patch"@,
{
    reveal_strlit("semantic");
    reveal_strlit("episodic");
    reveal_strlit("episode");
    reveal_strlit("procedural");
    reveal_strlit("persona");
    reveal_strlit("patch");
    assert("semantic"@.len() == 8 && "semantic"@[0] == 's');
    assert("episodic"@.len() == 8 && "episodic"@[0] == 'e');
    assert("episode"@.len() == 7 && "episode"@[0] == 'e');
    assert("procedural"@.len() == 10 && "procedural"@[0] == 'p');
    assert("persona"@.len() == 7 && "persona"@[0] == 'p');
    assert("patch"@.len() == 5 && "patch"@[0] == 'p');
}

/// The reader imports exactly the five node types it documents, each as its own kind:
/// the kind it selects for a type is the kind that type names.
pub proof fn law_imported_node_types(t: Seq<char>)
    ensures
        kind_code(t) == imported_kind(t),
{
    reveal_strlit("semantic");
    reveal_strlit("episodic");
    reveal_strlit("episode");
    reveal_strlit("procedural");
    reveal_strlit("persona");
    reveal_strlit("patch");
    if t == "procedural"@ {
        assert(t != "semantic"@ && t != "episodic"@ && t != "episode"@) by {
            assert(t.len() == 10);
            assert("semantic"@.len() == 8 && "episodic"@.len() == 8 && "episode"@.len() == 7);
        }
    }
    if t == "persona"@ {
        assert(t != "semantic"@ && t != "episodic"@ && t != "episode"@ && t != "procedural"@) by {
            assert(t[0] == 'p' && "semantic"@[0] == 's' && "episodic"@[0] == 'e' && "episode"@[0] == 'e');
            assert(t.len() == 7 && "procedural"@.len() == 10);
        }
    }
    if t == "patch"@ {
        assert(t != "semantic"@ && t != "episodic"@ && t != "episode"@ && t != "procedural"@ && t
            != "persona"@) by {
            assert(t[0] == 'p' && "semantic"@[0] == 's' && "episodic"@[0] == 'e' && "episode"@[0] == 'e');
            assert(t.len() == 5 && "procedural"@.len() == 10 && "persona"@.len() == 7);
        }
    }
    if t == "semantic"@ {
        assert(t != "procedural"@) by {
            assert(t.len() == 8 && "procedural"@.len() == 10);
        }
    }
    if t == "episode"@ || t == "episodic"@ {
        assert(t != "procedural"@ && t != "semantic"@) by {
            assert(t[0] == 'e' && "procedural"@[0] == 'p' && "semantic"@[0] == 's');
        }
    }
}

fn score_field(fields: &[(String, JsonValue)], key: &str, default_hundredths: u32) -> (r: Score)
    ensures
        r == score_of(lookup(fields@, key@), default_hundredths),
{
    if field_is_num(fields, key) {
        Score::FromField
    } else {
        Score::Default(default_hundredths)
    }
}

fn field_strings(fields: &[(String, JsonValue)], key: &str) -> (r: Vec<String>)
    ensures
        string_views(r@) == string_vec(lookup(fields@, key@)),
{
    value_strings(lookup_field(fields, key))
}

fn field_u32(fields: &[(String, JsonValue)], key: &str, d: u64) -> (r: u32)
    ensures
        r == u32_field(fields@, key@, d),
{
    let x: u64 = match field_u64(fields, key) {
        Some(x) => x,
        None => d,
    };
    #[verifier::truncate]
    (x as u32)
}

fn non_empty_str(o: Option<String>) -> (r: Option<String>)
    ensures
        opt_view(r) == non_empty(opt_view(o)),
{
    match o {
        Some(s) => if s.as_str().is_empty() {
            None
        } else {
            Some(s)
        },
        None => None,
    }
}

fn plan_semantic(env: &InboxEnvelope, id: &String, label: &String, tags: Vec<String>) -> (r: SemanticPlan)
    requires
        id@ == node_id_text(*env),
        label@ == node_label(*env),
        string_views(tags@) == node_tags(*env),
    ensures
        semantic_ok(*env, r),
{
    proof {
        reveal_strlit("");
        assert(""@ =~= Seq::<char>::empty());
    }
    let pl = env.payload.as_slice();
    let fact = match non_empty_str(field_str(pl, "fact")) {
        Some(f) => f,
        None => if !label.as_str().is_empty() {
            label.clone()
        } else {
            let mut v = str_chars("(inbox semantic ");
            crate::text::append_str(&mut v, id.as_str());
            crate::text::append_str(&mut v, ")");
            chars_to_string(v.as_slice())
        },
    };
    SemanticPlan {
        fact,
        confidence: score_field(pl, "confidence", 70),
        source_turn_id: parse_uuid_or_stable(lookup_field(pl, "source_turn_id"), id.as_str()),
        tags,
        source_episode_id: field_str_or(pl, "source_episode_id", ""),
    }
}

fn plan_episode(env: &InboxEnvelope, id: &String, tags: Vec<String>) -> (r: EpisodePlan)
    requires
        id@ == node_id_text(*env),
        string_views(tags@) == node_tags(*env),
    ensures
        episode_ok(*env, r),
{
    proof {
        reveal_strlit("");
        assert(""@ =~= Seq::<char>::empty());
    }
    let pl = env.payload.as_slice();
    let timestamp = match value_i64_loose(lookup_field(pl, "timestamp")) {
        Some(t) => t,
        None => env.created_at_secs,
    };
    let calls_field = match lookup_field(pl, "tool_calls") {
        Some(v) => Some(v),
        None => lookup_field(pl, "tools"),
    };
    let invoked = field_strings(pl, "tools_invoked");
    let tools_invoked = if invoked.len() > 0 {
        Some(invoked)
    } else {
        None
    };
    EpisodePlan {
        turn_id: parse_uuid_or_stable(lookup_field(pl, "turn_id"), id.as_str()),
        timestamp,
        tool_calls: value_strings(calls_field),
        delegation_to: field_str(pl, "delegation_to"),
        tags,
        turn_index: field_u32(pl, "turn_index", 0),
        user_message_tokens: field_u32(pl, "user_message_tokens", 0),
        assistant_response_tokens: field_u32(pl, "assistant_response_tokens", 0),
        persona_signals_emitted: field_strings(pl, "persona_signals_emitted"),
        flagged: match field_bool(pl, "flagged") {
            Some(b) => b,
            None => false,
        },
        conversation_id: field_str_or(pl, "conversation_id", ""),
        follows_episode_id: field_str(pl, "follows_episode_id"),
        user_message: field_str(pl, "user_message"),
        assistant_response: field_str(pl, "assistant_response"),
        tools_invoked,
        vitals_gate: field_str(pl, "vitals_gate"),
        vitals_phase: field_str(pl, "vitals_phase"),
        vitals_trust: field_is_num(pl, "vitals_trust"),
    }
}

fn items_bytes(items: &[JsonItem]) -> (r: Vec<u8>)
    ensures
        r@ == item_bytes(items@),
{
    let mut out: Vec<u8> = Vec::new();
    let mut i: usize = 0;
    while i < items.len()
        invariant
            i <= items@.len(),
            out@ == item_bytes(items@.take(i as int)),
        decreases items.len() - i,
    {
        proof {
            assert(items@.take(i + 1).drop_last() =~= items@.take(i as int));
            assert(items@.take(i + 1).last() == items@[i as int]);
        }
        match &items[i] {
            JsonItem::Num(n) => match n.as_u64 {
                Some(u) => if u <= 255 {
                    out.push(u as u8);
                },
                None => {},
            },
            _ => {},
        }
        i = i + 1;
    }
    assert(items@.take(items@.len() as int) =~= items@);
    out
}

fn plan_procedural(env: &InboxEnvelope, label: &String) -> (r: ProceduralPlan)
    requires
        label@ == node_label(*env),
    ensures
        procedural_ok(*env, r),
{
    proof {
        reveal_strlit("");
        assert(""@ =~= Seq::<char>::empty());
    }
    let pl = env.payload.as_slice();
    let graph = match lookup_field(pl, "compiled_graph") {
        Some(JsonValue::Array(items)) => items_bytes(items.as_slice()),
        _ => Vec::new(),
    };
    ProceduralPlan {
        pattern_name: match field_str(pl, "pattern_name") {
            Some(p) => p,
            None => label.clone(),
        },
        tool_sequence: field_strings(pl, "tool_sequence"),
        confidence: score_field(pl, "confidence", 75),
        compiled_graph: graph,
        label: field_str_or(pl, "label", ""),
        trace_id: field_str(pl, "trace_id"),
        patch_version: field_u32(pl, "patch_version", 1),
    }
}

fn items_uuids(items: &[JsonItem]) -> (r: Vec<u128>)
    ensures
        r@ == item_uuids(items@),
{
    let mut out: Vec<u128> = Vec::new();
    let mut i: usize = 0;
    while i < items.len()
        invariant
            i <= items@.len(),
            out@ == item_uuids(items@.take(i as int)),
        decreases items.len() - i,
    {
        proof {
            assert(items@.take(i + 1).drop_last() =~= items@.take(i as int));
            assert(items@.take(i + 1).last() == items@[i as int]);
        }
        match &items[i] {
            JsonItem::Str(s) => match parse_uuid(s.as_str()) {
                Some(u) => out.push(u),
                None => {},
            },
            _ => {},
        }
        i = i + 1;
    }
    assert(items@.take(items@.len() as int) =~= items@);
    out
}

fn plan_persona(env: &InboxEnvelope, label: &String, writer_agent_id: &str) -> (r: PersonaPlan)
    requires
        label@ == node_label(*env),
    ensures
        persona_ok(*env, writer_agent_id@, r),
{
    let pl = env.payload.as_slice();
    let trait_name = match field_str(pl, "trait_name") {
        Some(t) => t,
        None => {
            let lv = str_chars(label.as_str());
            if crate::text::starts_with_str(lv.as_slice(), "persona:") {
                proof {
                    reveal_strlit("persona:");
                }
                sub_string(lv.as_slice(), 8, lv.len())
            } else {
                label.clone()
            }
        },
    };
    proof {
        reveal_strlit("persona:");
        if as_str(lookup(pl@, "trait_name"@)) is None && starts_with(node_label(*env), "persona:"@) {
            assert(node_label(*env).skip(8) =~= node_label(*env).subrange(8, node_label(*env).len() as int));
        }
    }
    let learned = match lookup_field(pl, "learned_from") {
        Some(JsonValue::Array(items)) => items_uuids(items.as_slice()),
        _ => Vec::new(),
    };
    PersonaPlan {
        trait_name,
        strength: score_field(pl, "strength", 50),
        learned_from: learned,
        agent_id: field_str_or(env.fields.as_slice(), "agent_id", writer_agent_id),
    }
}

fn plan_patch(env: &InboxEnvelope, label: &String) -> (r: PatchPlan)
    requires
        label@ == node_label(*env),
    ensures
        patch_ok(*env, r),
{
    proof {
        reveal_strlit("");
        assert(""@ =~= Seq::<char>::empty());
    }
    let pl = env.payload.as_slice();
    let pattern_name = match non_empty_str(field_str(pl, "pattern_name")) {
        Some(p) => p,
        None => match non_empty_str(field_str(pl, "label_name")) {
            Some(l) => l,
            None => label.clone(),
        },
    };
    let v: u64 = match field_u64(pl, "patch_version") {
        Some(x) => x,
        None => 1,
    };
    let v = if v < 1 {
        1
    } else {
        v
    };
    let retired = match lookup_field(pl, "retired_at") {
        Some(JsonValue::Null) => false,
        Some(_) => true,
        None => false,
    };
    PatchPlan {
        pattern_name,
        source_episode_ids: field_strings(pl, "source_episode_ids"),
        patch_version: #[verifier::truncate]
        (v as u32),
        label: field_str_or(pl, "label_name", ""),
        retired,
        trace_id: non_empty_str(field_str(pl, "parent_patch_id")),
    }
}

/// Decides how an inbox node becomes a graph node: `None` when the raw node is not an
/// object, its type is not one the reader imports, or it is a tagged semantic node skipped by
/// the tagger policy. The node's id is its inbox id as a UUID (or the id's stable UUID) and
/// its agent is the inbox owner.
pub fn plan_inbox_node(
    env: &InboxEnvelope,
    writer_agent_id: &str,
    source_features: &[String],
    cfg_tagger: bool,
) -> (r: Option<InboxNode>)
    ensures
        ({
            let k = kind_code(node_type_of(*env));
            let skip = skip_semantic(string_views(source_features@), node_tags(*env), cfg_tagger);
            match r {
                None => !env.is_object || k == 0 || (k == 1 && skip),
                Some(n) => {
                    &&& env.is_object
                    &&& n.id == uuid_of_text(node_id_text(*env))
                    &&& n.agent_id@ == writer_agent_id@
                    &&& match n.kind {
                        InboxNodeKind::Semantic(p) => k == 1 && !skip && semantic_ok(*env, p),
                        InboxNodeKind::Episode(p) => k == 2 && episode_ok(*env, p),
                        InboxNodeKind::Procedural(p) => k == 3 && procedural_ok(*env, p),
                        InboxNodeKind::Persona(p) => k == 4 && persona_ok(*env, writer_agent_id@, p),
                        InboxNodeKind::Patch(p) => k == 5 && patch_ok(*env, p),
                    }
                },
            }
        }),
        env.is_object && node_type_of(*env) == "procedural"@ ==> (r matches Some(n)
            && n.kind is Procedural),
        env.is_object && (node_type_of(*env) == "episodic"@ || node_type_of(*env) == "episode"@)
            ==> (r matches Some(n) && n.kind is Episode),
        env.is_object && node_type_of(*env) == "persona"@ ==> (r matches Some(n)
            && n.kind is Persona),
        env.is_object && node_type_of(*env) == "patch"@ ==> (r matches Some(n) && n.kind is Patch),
        env.is_object && node_type_of(*env) == "semantic"@ && !skip_semantic(
            string_views(source_features@),
            node_tags(*env),
            cfg_tagger,
        ) ==> (r matches Some(n) && n.kind is Semantic),
        imported_kind(node_type_of(*env)) == 0 ==> r is None,
{
    proof {
        reveal_strlit("");
        assert(""@ =~= Seq::<char>::empty());
        law_imported_node_types(node_type_of(*env));
        lemma_node_type_names_distinct();
    }
    if !env.is_object {
        return None;
    }
    let fields = env.fields.as_slice();
    let id = field_str_or(fields, "id", "unknown");
    let label = field_str_or(fields, "label", "");
    let tags = field_strings(fields, "tags");
    let nt = field_str_or(fields, "node_type", "");
    let ntl = lower_chars(str_chars(nt.as_str()).as_slice());
    let t = ntl.as_slice();
    let kind = if eq_str(t, "semantic") {
        if skip_semantic_for_tagger_policy(source_features, tags.as_slice(), cfg_tagger) {
            return None;
        }
        InboxNodeKind::Semantic(plan_semantic(env, &id, &label, tags))
    } else if eq_str(t, "episodic") || eq_str(t, "episode") {
        InboxNodeKind::Episode(plan_episode(env, &id, tags))
    } else if eq_str(t, "procedural") {
        InboxNodeKind::Procedural(plan_procedural(env, &label))
    } else if eq_str(t, "persona") {
        InboxNodeKind::Persona(plan_persona(env, &label, writer_agent_id))
    } else if eq_str(t, "patch") {
        InboxNodeKind::Patch(plan_patch(env, &label))
    } else {
        return None;
    };
    Some(InboxNode { id: uuid_for_text(id.as_str()), agent_id: owned(writer_agent_id), kind })
}

// ---------------------------------------------------------------------------
// Edges
// ---------------------------------------------------------------------------

/// Where an edge's weight comes from (default 1.0).
#[derive(Debug, Clone, Copy, PartialEq, Eq, Structural)]
pub enum EdgeWeight {
    /// The edge's `confidence` number.
    Confidence,
    /// The edge's `weight` number.
    Weight,
    /// The default weight.
    Default,
}

/// An imported edge.
pub struct InboxEdge {
    pub source_id: u128,
    pub target_id: u128,
    pub edge_type: String,
    pub weight: EdgeWeight,
}

/// The first of two string fields that holds a string.
pub open spec fn str_either(fields: Seq<(String, JsonValue)>, a: Seq<char>, b: Seq<char>) -> Option<Seq<char>> {
    match as_str(lookup(fields, a)) {
        Some(s) => Some(s),
        None => as_str(lookup(fields, b)),
    }
}

/// The weight source: `confidence` when present (its number, else the default), else
/// `weight`'s number, else the default.
pub open spec fn edge_weight_of(fields: Seq<(String, JsonValue)>) -> EdgeWeight {
    match lookup(fields, "confidence"@) {
        Some(c) => if is_num(Some(c)) {
            EdgeWeight::Confidence
        } else {
            EdgeWeight::Default
        },
        None => if is_num(lookup(fields, "weight"@)) {
            EdgeWeight::Weight
        } else {
            EdgeWeight::Default
        },
    }
}

fn field_str_either(fields: &[(String, JsonValue)], a: &str, b: &str) -> (r: Option<String>)
    ensures
        opt_view(r) == str_either(fields@, a@, b@),
{
    match field_str(fields, a) {
        Some(s) => Some(s),
        None => field_str(fields, b),
    }
}

/// Decides how an inbox edge becomes a graph edge: `None` unless it is an object with a
/// source (`src` or `source_id`) and a target (`dst` or `target_id`); the type is
/// `edge_type`, else `label`, else `references`.
pub fn plan_inbox_edge(is_object: bool, fields: &[(String, JsonValue)]) -> (r: Option<InboxEdge>)
    ensures
        ({
            let src = str_either(fields@, "src"@, "source_id"@);
            let dst = str_either(fields@, "dst"@, "target_id"@);
            match r {
                None => !is_object || src is None || dst is None,
                Some(e) => {
                    &&& is_object
                    &&& src is Some && dst is Some
                    &&& e.source_id == uuid_of_text(src->0)
                    &&& e.target_id == uuid_of_text(dst->0)
                    &&& e.edge_type@ == match str_either(fields@, "edge_type"@, "label"@) {
                        Some(t) => t,
                        None => "references"@,
                    }
                    &&& e.weight == edge_weight_of(fields@)
                },
            }
        }),
{
    if !is_object {
        return None;
    }
    let src = match field_str_either(fields, "src", "source_id") {
        Some(s) => s,
        None => return None,
    };
    let dst = match field_str_either(fields, "dst", "target_id") {
        Some(s) => s,
        None => return None,
    };
    let edge_type = match field_str_either(fields, "edge_type", "label") {
        Some(t) => t,
        None => owned("references"),
    };
    let weight = match lookup_field(fields, "confidence") {
        Some(c) => match c {
            JsonValue::Num(_) => EdgeWeight::Confidence,
            _ => EdgeWeight::Default,
        },
        None => if field_is_num(fields, "weight") {
            EdgeWeight::Weight
        } else {
            EdgeWeight::Default
        },
    };
    Some(InboxEdge {
        source_id: uuid_for_text(src.as_str()),
        target_id: uuid_for_text(dst.as_str()),
        edge_type,
        weight,
    })
}

/// `u8::is_ascii_whitespace`: space, tab, line feed, form feed, carriage return.
pub open spec fn ascii_ws_byte(b: u8) -> bool {
    b == 0x20 || b == 0x09 || b == 0x0A || b == 0x0C || b == 0x0D
}

/// Whether an inbox file's bytes hold nothing to import (empty or only ASCII whitespace).
pub fn inbox_bytes_blank(bytes: &[u8]) -> (r: bool)
    ensures
        r == forall|i: int| 0 <= i < bytes@.len() ==> ascii_ws_byte(#[trigger] bytes@[i]),
{
    let mut i: usize = 0;
    while i < bytes.len()
        invariant
            i <= bytes@.len(),
            forall|k: int| 0 <= k < i ==> ascii_ws_byte(#[trigger] bytes@[k]),
        decreases bytes.len() - i,
    {
        let b = bytes[i];
        if !(b == 0x20 || b == 0x09 || b == 0x0A || b == 0x0C || b == 0x0D) {
            return false;
        }
        i = i + 1;
    }
    true
}

/// A patch is imported with a patch version of at least 1 whenever its recorded version fits
/// in 32 bits.
pub proof fn law_patch_version_at_least_one(env: InboxEnvelope, p: PatchPlan)
    requires
        patch_ok(env, p),
        match as_u64(lookup(env.payload@, "patch_version"@)) {
            Some(x) => x <= u32::MAX,
            None => true,
        },
    ensures
        p.patch_version >= 1,
{
}

} // verus!
