//! Adaptive eco-mode policy: mode normalization, provider cache-capability labels,
//! compression tiers, the semantic-quality circuit breaker, the structured-payload guard,
//! per-agent cache streaks, and mode-switch hysteresis.

use vstd::prelude::*;
use crate::agent_map::AgentMap;
use dashmap::DashMap;
use crate::text::{
    trim_start, trim_end, matches_at, ascii_lower, contains, contains_str, eq_chars, eq_str,
    lower_chars, owned, str_chars, sub_vec, trim, trim_range, unicode_upper, uppercase_chars,
    count_matches, count_str, chars_to_string, append_str, append_chars, decimal, u64_decimal,
    string_views,
};
use crate::compression::{
    content_recommendation, recommend_for_content, stretched_ttl, effective_ttl,
    suggested_profile, suggest_profile_id,
};

verus! {

/// `ascii_lower(trim(s))`: the form in which mode and provider strings are compared.
pub open spec fn folded(s: Seq<char>) -> Seq<char> {
    ascii_lower(trim(s))
}

fn folded_exec(s: &str) -> (r: Vec<char>)
    ensures
        r@ == folded(s@),
{
    let v = str_chars(s);
    let (a, b) = trim_range(v.as_slice(), 0, v.len());
    assert(v@.subrange(0, v@.len() as int) =~= v@);
    let t = sub_vec(v.as_slice(), a, b);
    lower_chars(t.as_slice())
}

/// The eco mode a user/config string stands for: `off`, `balanced` or `aggressive`.
pub open spec fn normalized_mode(raw: Seq<char>) -> Seq<char> {
    let s = folded(raw);
    if contains(s, "aggressive"@) {
        "aggressive"@
    } else if contains(s, "balanced"@) {
        "balanced"@
    } else if contains(s, "off"@) || s.len() == 0 {
        "off"@
    } else {
        "balanced"@
    }
}

/// Normalize user/config eco strings to `off` | `balanced` | `aggressive`.
pub fn normalize_efficient_mode(raw: &str) -> (r: &'static str)
    ensures
        r@ == normalized_mode(raw@),
{
    let s = folded_exec(raw);
    if contains_str(s.as_slice(), "aggressive") {
        "aggressive"
    } else if contains_str(s.as_slice(), "balanced") {
        "balanced"
    } else if contains_str(s.as_slice(), "off") || s.len() == 0 {
        "off"
    } else {
        "balanced"
    }
}

/// The durable cache-capability label of a provider.
pub open spec fn capability_of(provider: Seq<char>) -> Seq<char> {
    let p = folded(provider);
    if p == "anthropic"@ {
        "explicit_prompt_cache"@
    } else if p == "openai"@ {
        "implicit_automatic"@
    } else if p == "google"@ || p == "gemini"@ {
        "limited_or_none"@
    } else if p == "groq"@ || p == "ollama"@ || p == "nvidia"@ || p == "lmstudio"@ || p
        == "vllm"@ {
        "none_local"@
    } else if p == "openrouter"@ {
        "routed_provider_dependent"@
    } else {
        "unknown"@
    }
}

/// Provider → durable `cache_capability` label (used for policy, telemetry, and TTL dampening).
pub fn cache_capability_label(provider: &str) -> (r: &'static str)
    ensures
        r@ == capability_of(provider@),
{
    let p = folded_exec(provider);
    let s = p.as_slice();
    if eq_str(s, "anthropic") {
        "explicit_prompt_cache"
    } else if eq_str(s, "openai") {
        "implicit_automatic"
    } else if eq_str(s, "google") || eq_str(s, "gemini") {
        "limited_or_none"
    } else if eq_str(s, "groq") || eq_str(s, "ollama") || eq_str(s, "nvidia") || eq_str(
        s,
        "lmstudio",
    ) || eq_str(s, "vllm") {
        "none_local"
    } else if eq_str(s, "openrouter") {
        "routed_provider_dependent"
    } else {
        "unknown"
    }
}

/// True when the snapshot label indicates vendor prompt caching that shares a TTL window
/// with billing.
pub fn prompt_cache_capability_label(label: &str) -> (r: bool)
    ensures
        r == (trim(label@) == "explicit_prompt_cache"@ || trim(label@) == "implicit_automatic"@
            || trim(label@) == "routed_provider_dependent"@),
{
    let v = str_chars(label);
    let (a, b) = trim_range(v.as_slice(), 0, v.len());
    assert(v@.subrange(0, v@.len() as int) =~= v@);
    let t = sub_vec(v.as_slice(), a, b);
    eq_str(t.as_slice(), "explicit_prompt_cache") || eq_str(t.as_slice(), "implicit_automatic")
        || eq_str(t.as_slice(), "routed_provider_dependent")
}

/// Relative compression aggressiveness of a mode (higher = more compression).
pub open spec fn tier_of(mode: Seq<char>) -> u8 {
    if normalized_mode(mode) == "aggressive"@ {
        2
    } else if normalized_mode(mode) == "balanced"@ {
        1
    } else {
        0
    }
}

/// Relative compression aggressiveness for policy comparisons (higher = more compression).
pub fn compression_tier_rank(mode: &str) -> (r: u8)
    ensures
        r == tier_of(mode@),
        r <= 2,
{
    let n = normalize_efficient_mode(mode);
    let nv = str_chars(n);
    if eq_str(nv.as_slice(), "aggressive") {
        2
    } else if eq_str(nv.as_slice(), "balanced") {
        1
    } else {
        0
    }
}

/// One compression tier down: aggressive → balanced, anything else → off.
pub open spec fn stepped_down(mode: Seq<char>) -> Seq<char> {
    if contains(folded(mode), "aggressive"@) {
        "balanced"@
    } else {
        "off"@
    }
}

/// Step down one compression tier: aggressive → balanced → off.
pub fn step_down_efficient_mode(mode: &str) -> (r: &'static str)
    ensures
        r@ == stepped_down(mode@),
{
    let s = folded_exec(mode);
    if contains_str(s.as_slice(), "aggressive") {
        "balanced"
    } else {
        "off"
    }
}

// ---------------------------------------------------------------------------
// Circuit breaker
// ---------------------------------------------------------------------------

/// Circuit-breaker settings of the adaptive eco configuration.
#[derive(Debug, Clone, Copy)]
pub struct CircuitBreakerConfig {
    pub enabled: bool,
    /// Number of most recent turns inspected (at least one is always inspected).
    pub window: u32,
    /// How many of them must fall below the semantic floor (at least one).
    pub min_below_floor: u32,
}

/// Number of `true` flags.
pub open spec fn count_true(s: Seq<bool>) -> nat
    decreases s.len(),
{
    if s.len() == 0 {
        0
    } else {
        count_true(s.drop_last()) + if s.last() {
            1nat
        } else {
            0nat
        }
    }
}

/// `max(x, 1)`.
pub open spec fn at_least_one(x: u32) -> int {
    if x == 0 {
        1
    } else {
        x as int
    }
}

/// Whether the breaker trips: enabled, something inspected, and enough of the newest
/// `window` turns below the floor.
pub open spec fn breaker_trips(cfg: CircuitBreakerConfig, below_floor: Seq<bool>) -> bool {
    let w = if below_floor.len() > at_least_one(cfg.window) {
        at_least_one(cfg.window)
    } else {
        below_floor.len() as int
    };
    cfg.enabled && w > 0 && count_true(below_floor.take(w)) >= at_least_one(cfg.min_below_floor)
}

/// If enough recent turns fall below the semantic floor, answer the mode one tier down and
/// whether that actually changed the normalized mode; otherwise the base mode unchanged.
/// `below_floor_newest_first[i]` says whether the `i`-th most recent semantic score was
/// below the floor.
pub fn circuit_breaker_adjust_base(
    base_mode: &str,
    cfg: &CircuitBreakerConfig,
    below_floor_newest_first: &[bool],
) -> (r: (String, bool))
    ensures
        breaker_trips(*cfg, below_floor_newest_first@) ==> r.0@ == stepped_down(base_mode@) && r.1
            == (stepped_down(base_mode@) != normalized_mode(base_mode@)),
        !breaker_trips(*cfg, below_floor_newest_first@) ==> r.0@ == base_mode@ && !r.1,
{
    if !cfg.enabled {
        return (owned(base_mode), false);
    }
    let window: usize = if cfg.window == 0 {
        1
    } else {
        cfg.window as usize
    };
    let n = if below_floor_newest_first.len() > window {
        window
    } else {
        below_floor_newest_first.len()
    };
    if n == 0 {
        return (owned(base_mode), false);
    }
    let need: u64 = if cfg.min_below_floor == 0 {
        1
    } else {
        cfg.min_below_floor as u64
    };
    let mut below: u64 = 0;
    let mut i: usize = 0;
    while i < n
        invariant
            i <= n <= below_floor_newest_first@.len(),
            below == count_true(below_floor_newest_first@.take(i as int)),
            below <= i,
        decreases n - i,
    {
        assert(below_floor_newest_first@.take(i + 1).drop_last() =~= below_floor_newest_first@.take(
            i as int,
        ));
        if below_floor_newest_first[i] {
            below = below + 1;
        }
        i = i + 1;
    }
    if below < need {
        return (owned(base_mode), false);
    }
    let stepped = step_down_efficient_mode(base_mode);
    let norm = normalize_efficient_mode(base_mode);
    let sv = str_chars(stepped);
    let nv = str_chars(norm);
    let tripped = !eq_chars(sv.as_slice(), nv.as_slice());
    (owned(stepped), tripped)
}

// ---------------------------------------------------------------------------
// Structured-payload guard
// ---------------------------------------------------------------------------

/// A message of at least 120 UTF-8 bytes (as `str::len` reports them) that looks structured: two or more code fences,
/// ten or more braces, or SQL (`SELECT ` in the uppercased text together with `;` or
/// `WHERE `).
pub open spec fn payload_heavy(m: Seq<char>) -> bool {
    &&& (vstd::utf8::encode_utf8(m).len() as usize) >= 120
    &&& {
        ||| count_matches(m, "```"@) >= 2
        ||| count_matches(m, "{"@) + count_matches(m, "}"@) >= 10
        ||| (contains(unicode_upper(m), "SELECT "@) && (contains(m, ";"@) || contains(m, "WHERE "@)))
    }
}

/// Whether a user message is structured enough that aggressive compression is capped.
pub fn structured_payload_heavy(message: &str) -> (r: bool)
    ensures
        r == payload_heavy(message@),
{
    if message.len() < 120 {
        return false;
    }
    proof {
        reveal_strlit("```");
        reveal_strlit("{");
        reveal_strlit("}");
    }
    let v = str_chars(message);
    let s = v.as_slice();
    let code_ticks = count_str(s, "```");
    let open = count_str(s, "{");
    let close = count_str(s, "}");
    let braces_heavy = open >= 10 || close >= 10 - open;
    let uv = uppercase_chars(s);
    let sqlish = contains_str(uv.as_slice(), "SELECT ") && (contains_str(s, ";") || contains_str(
        s,
        "WHERE ",
    ));
    code_ticks >= 2 || braces_heavy || sqlish
}

// ---------------------------------------------------------------------------
// Cache streaks
// ---------------------------------------------------------------------------

/// The streak after one more turn of `agent` on `logical`: one more than before when the
/// agent's previous turn was on the same logical key (saturating), otherwise one.
pub open spec fn streak_after(m: Map<Seq<char>, (Seq<char>, u32)>, agent: Seq<char>, logical: Seq<char>) -> u32 {
    if m.dom().contains(agent) && m[agent].0 == logical {
        m[agent].1.saturating_add(1)
    } else {
        1
    }
}

/// Per agent: the logical key of its last turn and how many consecutive turns used it.
pub struct CacheStreaks {
    by_agent: AgentMap<(String, u32)>,
}

impl CacheStreaks {
    /// For each agent, the last logical key and the streak length.
    pub closed spec fn view(&self) -> Map<Seq<char>, (Seq<char>, u32)> {
        self.by_agent.view().map_values(|e: (String, u32)| (e.0@, e.1))
    }

    /// Internal consistency.
    pub closed spec fn wf(&self) -> bool {
        self.by_agent.wf()
    }

    /// No streaks.
    pub fn new() -> (r: Self)
        ensures
            r.wf(),
            r.view() == Map::<Seq<char>, (Seq<char>, u32)>::empty(),
    {
        let r = CacheStreaks { by_agent: AgentMap::new() };
        assert(r.view() =~= Map::<Seq<char>, (Seq<char>, u32)>::empty());
        r
    }

    /// Bump the consecutive-turn streak of `agent_name` on `logical`; used for the cache TTL
    /// stretch.
    pub fn next_cache_streak(&mut self, agent_name: &str, logical: &str) -> (r: u32)
        requires
            old(self).wf(),
        ensures
            final(self).wf(),
            r == streak_after(old(self).view(), agent_name@, logical@),
            final(self).view() == old(self).view().insert(agent_name@, (logical@, r)),
    {
        let ghost before = self.view();
        let n: u32 = match self.by_agent.get(agent_name) {
            Some(e) => {
                let lv = str_chars(logical);
                let ev = str_chars(e.0.as_str());
                if eq_chars(ev.as_slice(), lv.as_slice()) {
                    e.1.saturating_add(1)
                } else {
                    1
                }
            },
            None => 1,
        };
        self.by_agent.insert(agent_name, (owned(logical), n));
        assert(self.view() =~= before.insert(agent_name@, (logical@, n)));
        n
    }
}

/// Consecutive turns of one agent on one logical key count up by one each; a turn on another
/// key starts again at one.
pub proof fn law_streak_counts_consecutive_turns(
    m: Map<Seq<char>, (Seq<char>, u32)>,
    agent: Seq<char>,
    logical: Seq<char>,
    other: Seq<char>,
)
    requires
        other != logical,
    ensures
        streak_after(
            m.insert(agent, (logical, streak_after(m, agent, logical))),
            agent,
            logical,
        ) == streak_after(m, agent, logical).saturating_add(1),
        streak_after(m.insert(agent, (logical, streak_after(m, agent, logical))), agent, other)
            == 1,
{
}

// ---------------------------------------------------------------------------
// Mode-switch hysteresis
// ---------------------------------------------------------------------------

/// The pending target of an agent and how many consecutive turns recommended it.
pub struct HysteresisState {
    pub pending_target: Option<String>,
    pub streak: u32,
}

/// The view of a pending target.
pub open spec fn target_view(t: Option<String>) -> Option<Seq<char>> {
    match t {
        Some(s) => Some(s@),
        None => None,
    }
}

/// `max(min_n, 1)`.
pub open spec fn required_streak(min_n: u32) -> int {
    if min_n == 0 {
        1
    } else {
        min_n as int
    }
}

/// One hysteresis step for `id`: the new state map and the answer (mode, blocked).
pub open spec fn hysteresis_step(
    m: Map<Seq<char>, (Option<Seq<char>>, u32)>,
    id: Seq<char>,
    current: Seq<char>,
    recommended: Seq<char>,
    min_n: u32,
) -> (Map<Seq<char>, (Option<Seq<char>>, u32)>, (Seq<char>, bool)) {
    let cur = normalized_mode(current);
    let rec = normalized_mode(recommended);
    if rec == cur {
        (m.remove(id), (cur, false))
    } else {
        let streak: u32 = if m.dom().contains(id) && m[id].0 == Some(rec) {
            m[id].1.saturating_add(1)
        } else {
            1
        };
        if streak >= required_streak(min_n) {
            (m.remove(id), (rec, false))
        } else {
            (m.insert(id, (Some(rec), streak)), (cur, true))
        }
    }
}

/// A map from billing id to its hysteresis state.
pub type HysteresisMap = DashMap<String, HysteresisState>;

/// Name for what a hysteresis map holds: each billing id's characters and its state.
pub uninterp spec fn hysteresis_states(m: HysteresisMap) -> Map<Seq<char>, HysteresisState>;

/// `DashMap::new`: a map that holds nothing.
#[verifier::external_body]
fn new_hysteresis_map() -> (r: HysteresisMap)
    ensures
        hysteresis_states(r).dom() == Set::<Seq<char>>::empty(),
{
    DashMap::new()
}

/// `DashMap::insert`: stores `h` under `id`, replacing any earlier state.
#[verifier::external_body]
fn insert_hysteresis(m: &mut HysteresisMap, id: &str, h: HysteresisState)
    ensures
        hysteresis_states(*final(m)) == hysteresis_states(*old(m)).insert(id@, h),
{
    m.insert(id.to_string(), h);
}

/// `DashMap::remove`: takes out the state stored under `id`, if any.
#[verifier::external_body]
fn remove_hysteresis(m: &mut HysteresisMap, id: &str) -> (r: Option<HysteresisState>)
    ensures
        hysteresis_states(*final(m)) == hysteresis_states(*old(m)).remove(id@),
        match r {
            Some(h) => hysteresis_states(*old(m)).dom().contains(id@) && hysteresis_states(*old(m))[id@] == h,
            None => !hysteresis_states(*old(m)).dom().contains(id@),
        },
{
    m.remove(id).map(|(_, h)| h)
}

/// `DashMap::is_empty`: whether the map holds nothing.
#[verifier::external_body]
fn hysteresis_map_is_empty(m: &HysteresisMap) -> (r: bool)
    ensures
        r == (hysteresis_states(*m).dom() == Set::<Seq<char>>::empty()),
{
    m.is_empty()
}

/// Per-agent hysteresis state for adaptive eco enforcement.
pub struct EcoHysteresis {
    by_agent: HysteresisMap,
}

impl EcoHysteresis {
    /// For each agent with a pending switch, the target and the streak.
    pub closed spec fn view(&self) -> Map<Seq<char>, (Option<Seq<char>>, u32)> {
        hysteresis_states(self.by_agent).map_values(|h: HysteresisState| (target_view(h.pending_target), h.streak))
    }

    /// No pending switches.
    pub fn new() -> (r: Self)
        ensures
            r.view() == Map::<Seq<char>, (Option<Seq<char>>, u32)>::empty(),
    {
        let r = EcoHysteresis { by_agent: new_hysteresis_map() };
        assert(r.view() =~= Map::<Seq<char>, (Option<Seq<char>>, u32)>::empty());
        r
    }

    /// Whether no switch is pending for any agent.
    pub fn is_empty(&self) -> (r: bool)
        ensures
            r == (self.view().dom() == Set::<Seq<char>>::empty()),
    {
        assert(self.view().dom() =~= hysteresis_states(self.by_agent).dom());
        hysteresis_map_is_empty(&self.by_agent)
    }

    /// When enforcement is on, switch from `current_mode` to `recommended` only after
    /// `min_n` (at least one) consecutive matching recommendations for `billing_id`. Answers
    /// the mode to use and whether a switch is being held back.
    pub fn hysteresis_resolve_adaptive_effective(
        &mut self,
        billing_id: &str,
        current_mode: &str,
        recommended: &str,
        min_n: u32,
    ) -> (r: (String, bool))
        ensures
            (final(self).view(), (r.0@, r.1)) == hysteresis_step(
                old(self).view(),
                billing_id@,
                current_mode@,
                recommended@,
                min_n,
            ),
    {
        let ghost before = self.view();
        let need: u32 = if min_n == 0 {
            1
        } else {
            min_n
        };
        let cur = normalize_efficient_mode(current_mode);
        let rec = normalize_efficient_mode(recommended);
        let cv = str_chars(cur);
        let rv = str_chars(rec);
        if eq_chars(cv.as_slice(), rv.as_slice()) {
            let _ = remove_hysteresis(&mut self.by_agent, billing_id);
            assert(self.view() =~= before.remove(billing_id@));
            return (owned(cur), false);
        }
        let prev = remove_hysteresis(&mut self.by_agent, billing_id);
        assert(self.view() =~= before.remove(billing_id@));
        let streak: u32 = match &prev {
            Some(h) => match &h.pending_target {
                Some(t) => {
                    let tv = str_chars(t.as_str());
                    if eq_chars(tv.as_slice(), rv.as_slice()) {
                        h.streak.saturating_add(1)
                    } else {
                        1
                    }
                },
                None => 1,
            },
            None => 1,
        };
        if streak >= need {
            return (owned(rec), false);
        }
        insert_hysteresis(&mut self.by_agent, billing_id, HysteresisState { pending_target: Some(owned(rec)), streak });
        assert(self.view() =~= before.insert(billing_id@, (Some(rv@), streak)));
        (owned(cur), true)
    }
}

/// `k` consecutive hysteresis steps for one agent with the same modes.
pub open spec fn hysteresis_run(
    m: Map<Seq<char>, (Option<Seq<char>>, u32)>,
    id: Seq<char>,
    current: Seq<char>,
    recommended: Seq<char>,
    min_n: u32,
    k: nat,
) -> (Map<Seq<char>, (Option<Seq<char>>, u32)>, (Seq<char>, bool))
    decreases k,
{
    if k <= 1 {
        hysteresis_step(m, id, current, recommended, min_n)
    } else {
        hysteresis_step(
            hysteresis_run(m, id, current, recommended, min_n, (k - 1) as nat).0,
            id,
            current,
            recommended,
            min_n,
        )
    }
}

/// Starting with nothing pending for an agent, a recommendation that differs from the current
/// mode is held back on each of the first `max(min_n, 1) - 1` turns that repeat it (while the
/// streak counts up), and adopted on the turn after, which clears the agent's state.
pub proof fn law_switch_after_min_n_consecutive(
    m: Map<Seq<char>, (Option<Seq<char>>, u32)>,
    id: Seq<char>,
    current: Seq<char>,
    recommended: Seq<char>,
    min_n: u32,
    k: nat,
)
    requires
        !m.dom().contains(id),
        normalized_mode(recommended) != normalized_mode(current),
        1 <= k <= required_streak(min_n),
    ensures
        k < required_streak(min_n) ==> hysteresis_run(m, id, current, recommended, min_n, k).1 == (
        normalized_mode(current), true) && hysteresis_run(m, id, current, recommended, min_n, k).0[id]
            == (Some(normalized_mode(recommended)), k as u32),
        k < required_streak(min_n) ==> hysteresis_run(
            m,
            id,
            current,
            recommended,
            min_n,
            k,
        ).0.dom().contains(id),
        k == required_streak(min_n) ==> hysteresis_run(m, id, current, recommended, min_n, k).1 == (
        normalized_mode(recommended), false) && !hysteresis_run(
            m,
            id,
            current,
            recommended,
            min_n,
            k,
        ).0.dom().contains(id),
    decreases k,
{
    if k > 1 {
        law_switch_after_min_n_consecutive(m, id, current, recommended, min_n, (k - 1) as nat);
    }
}

// ---------------------------------------------------------------------------
// Adaptive eco resolution for one turn
// ---------------------------------------------------------------------------

/// What adaptive eco resolution reads for one turn, as plain values.
pub struct EcoTurnInput {
    /// Provider of the agent's model (untrimmed).
    pub provider: String,
    /// Model id (untrimmed).
    pub model: String,
    /// Agent name, the key of its cache streak.
    pub agent_name: String,
    /// The `efficient_mode` metadata string, if set.
    pub efficient_mode: Option<String>,
    /// The `project_id` metadata string, if set.
    pub project_id: Option<String>,
    /// The reason code carrying the catalog's input price, when the model has one.
    pub price_code: Option<String>,
    /// Whether adaptive compression metadata is merged in (`AINL_ADAPTIVE_COMPRESSION`).
    pub adaptive_compression: bool,
    pub enforce: bool,
    pub allow_aggressive_on_structured: bool,
    pub provider_prompt_cache_ttl_secs: u64,
}

/// Result of adaptive eco resolution for one turn.
pub struct AdaptiveEcoPlan {
    pub effective_mode: String,
    pub recommended_mode: String,
    pub reason_codes: Vec<String>,
    pub provider: String,
    pub model: String,
    pub cache_capability: String,
    pub shadow_only: bool,
    pub enforce: bool,
    pub content_recommendation: Option<String>,
    pub compression_profile_id: Option<String>,
    pub cache_effective_ttl_secs: Option<u64>,
    pub cache_prompt_streak: Option<u32>,
}

/// The mode name of a tier.
pub open spec fn tier_name(t: u8) -> Seq<char> {
    if t == 0 {
        "off"@
    } else if t == 1 {
        "balanced"@
    } else {
        "aggressive"@
    }
}

/// The view of an optional string.
pub open spec fn opt_view(o: Option<String>) -> Option<Seq<char>> {
    match o {
        Some(s) => Some(s@),
        None => None,
    }
}

/// The working base mode: the metadata mode, `off` when unset.
pub open spec fn base_mode_of(efficient_mode: Option<Seq<char>>) -> Seq<char> {
    match efficient_mode {
        Some(m) => normalized_mode(m),
        None => normalized_mode("off"@),
    }
}

/// The recommendation before the structured-payload guard: with a content tier, the larger of
/// base and content tier (capped at aggressive) unless the base is off; otherwise the base.
pub open spec fn recommendation_before_guard(base: Seq<char>, content_tier: Option<u8>) -> Seq<char> {
    match content_tier {
        Some(ct) => {
            let bt = tier_of(base);
            let t: u8 = if bt == 0 {
                0
            } else if bt >= ct {
                bt
            } else if ct > 2 {
                2
            } else {
                ct
            };
            tier_name(t)
        },
        None => base,
    }
}

/// Whether the structured-payload guard caps an aggressive recommendation.
pub open spec fn guard_applies(rec: Seq<char>, message: Seq<char>, allow_aggressive_on_structured: bool) -> bool {
    payload_heavy(message) && rec == "aggressive"@ && !allow_aggressive_on_structured
}

/// The cache-streak key of a turn: `<agent>|<project_id or empty>`.
pub open spec fn project_key(agent: Seq<char>, project_id: Option<Seq<char>>) -> Seq<char> {
    agent + "|"@ + match project_id {
        Some(p) => p,
        None => Seq::<char>::empty(),
    }
}

/// Configured TTL, at least one second.
pub open spec fn ttl_base(ttl: u64) -> u64 {
    if ttl == 0 {
        1
    } else {
        ttl
    }
}

/// The machine-readable reasons of a plan, in order.
pub open spec fn plan_reasons(
    capability: Seq<char>,
    price_code: Option<Seq<char>>,
    profile: Option<Seq<char>>,
    content_reasons: Option<Seq<Seq<char>>>,
    ttl: u64,
    guarded: bool,
    enforce: bool,
) -> Seq<Seq<char>> {
    seq!["adaptive_eco:v2_ainl_compression"@, "provider_capability:"@ + capability] + match price_code {
        Some(c) => seq!["pricing_from_model_catalog"@, c],
        None => seq!["pricing_unresolved_for_model"@],
    } + match profile {
        Some(p) => seq!["ainl_profile_hint:"@ + p],
        None => Seq::<Seq<char>>::empty(),
    } + match content_reasons {
        Some(rs) => rs.map_values(|r: Seq<char>| "ainl_content_reason:"@ + r).push(
            "ainl_cache_stretch:"@ + decimal(ttl as nat),
        ),
        None => Seq::<Seq<char>>::empty(),
    } + if guarded {
        seq!["structured_payload_guard:cap_aggressive"@]
    } else {
        Seq::<Seq<char>>::empty()
    } + if enforce {
        seq!["enforce:on"@]
    } else {
        seq!["shadow_only:enforce_off"@]
    }
}

/// The content tier, if a recommendation was given.
pub open spec fn content_tier_of(content: Option<(u8, Vec<String>)>) -> Option<u8> {
    match content {
        Some(c) => Some(c.0),
        None => None,
    }
}

/// The reasons of an optional content recommendation.
pub open spec fn content_reasons_of(content: Option<(u8, Vec<String>)>) -> Option<Seq<Seq<char>>> {
    match content {
        Some(c) => Some(string_views(c.1@)),
        None => None,
    }
}

/// The profile hint of a turn: the suggested profile of its project, if it has one.
pub open spec fn plan_profile(input: &EcoTurnInput) -> Option<Seq<char>> {
    match opt_view(input.project_id) {
        Some(p) => Some(suggested_profile(p)),
        None => None,
    }
}

/// The cache-streak key of a turn.
pub open spec fn plan_key(input: &EcoTurnInput) -> Seq<char> {
    project_key(input.agent_name@, opt_view(input.project_id))
}

/// The streak a turn reaches.
pub open spec fn plan_streak(input: &EcoTurnInput, streaks: Map<Seq<char>, (Seq<char>, u32)>) -> u32 {
    streak_after(streaks, input.agent_name@, plan_key(input))
}

/// The stretched cache TTL of a turn.
pub open spec fn plan_ttl(input: &EcoTurnInput, streaks: Map<Seq<char>, (Seq<char>, u32)>) -> u64 {
    stretched_ttl(ttl_base(input.provider_prompt_cache_ttl_secs), plan_streak(input, streaks))
}

/// Whether the structured-payload guard applies to a turn.
pub open spec fn plan_guarded(input: &EcoTurnInput, message: Seq<char>, content_tier: Option<u8>) -> bool {
    guard_applies(
        recommendation_before_guard(base_mode_of(opt_view(input.efficient_mode)), content_tier),
        message,
        input.allow_aggressive_on_structured,
    )
}

/// The recommended mode of a turn.
pub open spec fn plan_recommendation(input: &EcoTurnInput, message: Seq<char>, content_tier: Option<u8>) -> Seq<char> {
    if plan_guarded(input, message, content_tier) {
        "balanced"@
    } else {
        recommendation_before_guard(base_mode_of(opt_view(input.efficient_mode)), content_tier)
    }
}

fn push_item(v: &mut Vec<String>, s: String)
    ensures
        string_views(final(v)@) == string_views(old(v)@).push(s@),
{
    v.push(s);
    assert(string_views(v@) =~= string_views(old(v)@).push(s@));
}

fn concat_str(a: &str, b: &str) -> (r: String)
    ensures
        r@ == a@ + b@,
{
    let mut v = str_chars(a);
    append_str(&mut v, b);
    chars_to_string(v.as_slice())
}

/// The first reason codes of a plan: version, capability, pricing and profile hint.
fn reason_prefix(capability: &str, price_code: &Option<String>, profile: &Option<String>) -> (r: Vec<String>)
    ensures
        string_views(r@) == seq!["adaptive_eco:v2_ainl_compression"@, "provider_capability:"@ + capability@]
            + match opt_view(*price_code) {
            Some(c) => seq!["pricing_from_model_catalog"@, c],
            None => seq!["pricing_unresolved_for_model"@],
        } + match opt_view(*profile) {
            Some(p) => seq!["ainl_profile_hint:"@ + p],
            None => Seq::<Seq<char>>::empty(),
        },
{
    let mut reasons: Vec<String> = Vec::new();
    push_item(&mut reasons, owned("adaptive_eco:v2_ainl_compression"));
    push_item(&mut reasons, concat_str("provider_capability:", capability));
    let ghost p1 = seq!["adaptive_eco:v2_ainl_compression"@, "provider_capability:"@ + capability@];
    assert(string_views(reasons@) =~= p1);
    match price_code {
        Some(c) => {
            push_item(&mut reasons, owned("pricing_from_model_catalog"));
            push_item(&mut reasons, c.clone());
        },
        None => {
            push_item(&mut reasons, owned("pricing_unresolved_for_model"));
        },
    }
    let ghost p2 = string_views(reasons@);
    match profile {
        Some(p) => {
            push_item(&mut reasons, concat_str("ainl_profile_hint:", p.as_str()));
        },
        None => {},
    }
    proof {
        let price_part: Seq<Seq<char>> = match opt_view(*price_code) {
            Some(c) => seq!["pricing_from_model_catalog"@, c],
            None => seq!["pricing_unresolved_for_model"@],
        };
        let profile_part: Seq<Seq<char>> = match opt_view(*profile) {
            Some(p) => seq!["ainl_profile_hint:"@ + p],
            None => Seq::<Seq<char>>::empty(),
        };
        assert(p2 =~= p1 + price_part);
        assert(string_views(reasons@) =~= p1 + price_part + profile_part);
    }
    reasons
}

/// Appends the content reasons, each prefixed `ainl_content_reason:`.
fn push_content_reasons(reasons: &mut Vec<String>, rs: &Vec<String>)
    ensures
        string_views(final(reasons)@) == string_views(old(reasons)@) + string_views(rs@).map_values(
            |r: Seq<char>| "ainl_content_reason:"@ + r,
        ),
{
    let ghost r_prefix = string_views(reasons@);
    let mut i: usize = 0;
    assert(string_views(rs@).take(0).map_values(|r: Seq<char>| "ainl_content_reason:"@ + r) =~= Seq::<Seq<char>>::empty());
    assert(string_views(reasons@) =~= r_prefix + Seq::<Seq<char>>::empty());
    while i < rs.len()
        invariant
            i <= rs@.len(),
            string_views(reasons@) == r_prefix + string_views(rs@).take(i as int).map_values(
                |r: Seq<char>| "ainl_content_reason:"@ + r,
            ),
        decreases rs.len() - i,
    {
        let ghost pre = reasons@;
        let item = concat_str("ainl_content_reason:", rs[i].as_str());
        push_item(reasons, item);
        proof {
            assert(string_views(rs@).take(i + 1).map_values(|r: Seq<char>| "ainl_content_reason:"@ + r)
                =~= string_views(rs@).take(i as int).map_values(
                |r: Seq<char>| "ainl_content_reason:"@ + r,
            ).push("ainl_content_reason:"@ + rs@[i as int]@));
            assert(string_views(reasons@) =~= r_prefix + string_views(rs@).take(i + 1).map_values(
                |r: Seq<char>| "ainl_content_reason:"@ + r,
            ));
        }
        i = i + 1;
    }
    assert(string_views(rs@).take(rs@.len() as int) =~= string_views(rs@));
}

/// Records the turn's cache streak and answers the streak and the stretched TTL.
fn stretch_cache(input: &EcoTurnInput, streaks: &mut CacheStreaks) -> (r: (u32, u64))
    requires
        old(streaks).wf(),
    ensures
        final(streaks).wf(),
        r.0 == plan_streak(input, old(streaks).view()),
        r.1 == plan_ttl(input, old(streaks).view()),
        final(streaks).view() == old(streaks).view().insert(
            input.agent_name@,
            (plan_key(input), plan_streak(input, old(streaks).view())),
        ),
{
    let key = match &input.project_id {
        Some(p) => concat_str(concat_str(input.agent_name.as_str(), "|").as_str(), p.as_str()),
        None => concat_str(input.agent_name.as_str(), "|"),
    };
    assert(key@ =~= plan_key(input));
    let strike = streaks.next_cache_streak(input.agent_name.as_str(), key.as_str());
    let base_ttl: u64 = if input.provider_prompt_cache_ttl_secs == 0 {
        1
    } else {
        input.provider_prompt_cache_ttl_secs
    };
    let ttl = effective_ttl(base_ttl, strike);
    (strike, ttl)
}

/// The recommended mode and whether the structured-payload guard capped it.
fn recommend_with_guard(input: &EcoTurnInput, base: &str, content_tier: Option<u8>, user_message: &str) -> (r: (String, bool))
    requires
        base@ == base_mode_of(opt_view(input.efficient_mode)),
    ensures
        r.0@ == plan_recommendation(input, user_message@, content_tier),
        r.1 == plan_guarded(input, user_message@, content_tier),
{
    let bt = compression_tier_rank(base);
    let rec0: &'static str = match content_tier {
        Some(ct) => {
            let t: u8 = if bt == 0 {
                0
            } else if bt >= ct {
                bt
            } else if ct > 2 {
                2
            } else {
                ct
            };
            if t == 0 {
                "off"
            } else if t == 1 {
                "balanced"
            } else {
                "aggressive"
            }
        },
        None => {
            assert(base@ == normalized_mode(base@)) by {
                lemma_normalized_idempotent(opt_view(input.efficient_mode));
            }
            normalize_efficient_mode(base)
        },
    };
    let rv = str_chars(rec0);
    let guarded = structured_payload_heavy(user_message) && eq_str(rv.as_slice(), "aggressive")
        && !input.allow_aggressive_on_structured;
    if guarded {
        (owned("balanced"), true)
    } else {
        (owned(rec0), false)
    }
}

/// Normalizing a normalized mode changes nothing.
proof fn lemma_normalized_idempotent(m: Option<Seq<char>>)
    ensures
        normalized_mode(base_mode_of(m)) == base_mode_of(m),
{
    reveal_strlit("off");
    reveal_strlit("balanced");
    reveal_strlit("aggressive");
    let b = base_mode_of(m);
    assert(trim_start(b) == b);
    assert(trim_end(b) == b);
    assert(ascii_lower(b) =~= b);
    assert(folded(b) == b);
    assert(b.subrange(0, b.len() as int) =~= b);
    if b == "aggressive"@ {
        assert(matches_at(b, 0, "aggressive"@));
    } else if b == "balanced"@ {
        assert(matches_at(b, 0, "balanced"@));
        assert(!contains(b, "aggressive"@));
    } else {
        assert(b == "off"@);
        assert(matches_at(b, 0, "off"@));
        assert(!contains(b, "aggressive"@));
        assert(!contains(b, "balanced"@));
    }
}

/// Plans adaptive eco for one turn from its inputs and, when adaptive compression is on, the
/// content recommendation (tier and reasons) for the user message. Records the turn in the
/// cache streaks exactly when a recommendation is given.
pub fn plan_adaptive_eco_turn(
    input: &EcoTurnInput,
    user_message: &str,
    content: Option<(u8, Vec<String>)>,
    streaks: &mut CacheStreaks,
) -> (r: AdaptiveEcoPlan)
    requires
        old(streaks).wf(),
    ensures
        final(streaks).wf(),
        r.provider@ == trim(input.provider@),
        r.model@ == trim(input.model@),
        r.cache_capability@ == capability_of(trim(input.provider@)),
        r.effective_mode@ == base_mode_of(opt_view(input.efficient_mode)),
        r.recommended_mode@ == plan_recommendation(input, user_message@, content_tier_of(content)),
        r.shadow_only == !input.enforce,
        r.enforce == input.enforce,
        opt_view(r.compression_profile_id) == plan_profile(input),
        string_views(r.reason_codes@) == plan_reasons(
            capability_of(trim(input.provider@)),
            opt_view(input.price_code),
            plan_profile(input),
            content_reasons_of(content),
            plan_ttl(input, old(streaks).view()),
            plan_guarded(input, user_message@, content_tier_of(content)),
            input.enforce,
        ),
        content is Some ==> opt_view(r.content_recommendation) == Some(
            tier_name(content_tier_of(content)->0),
        ) && r.cache_prompt_streak == Some(plan_streak(input, old(streaks).view()))
            && r.cache_effective_ttl_secs == Some(plan_ttl(input, old(streaks).view()))
            && final(streaks).view() == old(streaks).view().insert(
            input.agent_name@,
            (plan_key(input), plan_streak(input, old(streaks).view())),
        ),
        content is None ==> r.content_recommendation is None && r.cache_prompt_streak is None
            && r.cache_effective_ttl_secs is None && final(streaks).view() == old(streaks).view(),
{
    let pv = str_chars(input.provider.as_str());
    let (a, b) = trim_range(pv.as_slice(), 0, pv.len());
    assert(pv@.subrange(0, pv@.len() as int) =~= pv@);
    let provider = chars_to_string(sub_vec(pv.as_slice(), a, b).as_slice());
    let mv = str_chars(input.model.as_str());
    let (c0, d0) = trim_range(mv.as_slice(), 0, mv.len());
    assert(mv@.subrange(0, mv@.len() as int) =~= mv@);
    let model = chars_to_string(sub_vec(mv.as_slice(), c0, d0).as_slice());
    let capability = cache_capability_label(provider.as_str());
    let base: &'static str = match &input.efficient_mode {
        Some(m) => normalize_efficient_mode(m.as_str()),
        None => normalize_efficient_mode("off"),
    };
    let profile: Option<String> = match &input.project_id {
        Some(p) => Some(suggest_profile_id(p.as_str())),
        None => None,
    };
    let mut reasons = reason_prefix(capability, &input.price_code, &profile);
    let ghost r1 = string_views(reasons@);
    let mut content_name: Option<String> = None;
    let mut streak_out: Option<u32> = None;
    let mut ttl_out: Option<u64> = None;
    let mut content_tier: Option<u8> = None;
    match &content {
        Some((tier, rs)) => {
            content_name = Some(owned(
                if *tier == 0 {
                    "off"
                } else if *tier == 1 {
                    "balanced"
                } else {
                    "aggressive"
                },
            ));
            content_tier = Some(*tier);
            push_content_reasons(&mut reasons, rs);
            let (strike, ttl) = stretch_cache(input, streaks);
            let dv = u64_decimal(ttl);
            let mut code = str_chars("ainl_cache_stretch:");
            append_chars(&mut code, dv.as_slice());
            push_item(&mut reasons, chars_to_string(code.as_slice()));
            streak_out = Some(strike);
            ttl_out = Some(ttl);
        },
        None => {},
    }
    let ghost r2 = string_views(reasons@);
    let (recommended, guarded) = recommend_with_guard(input, base, content_tier, user_message);
    if guarded {
        push_item(&mut reasons, owned("structured_payload_guard:cap_aggressive"));
    }
    let ghost r3 = string_views(reasons@);
    if input.enforce {
        push_item(&mut reasons, owned("enforce:on"));
    } else {
        push_item(&mut reasons, owned("shadow_only:enforce_off"));
    }
    proof {
        let content_part: Seq<Seq<char>> = match content {
            Some(c) => string_views(c.1@).map_values(|r: Seq<char>| "ainl_content_reason:"@ + r).push(
                "ainl_cache_stretch:"@ + decimal(plan_ttl(input, old(streaks).view()) as nat),
            ),
            None => Seq::<Seq<char>>::empty(),
        };
        assert(r2 =~= r1 + content_part);
        let guard_part: Seq<Seq<char>> = if guarded {
            seq!["structured_payload_guard:cap_aggressive"@]
        } else {
            Seq::<Seq<char>>::empty()
        };
        assert(r3 =~= r1 + content_part + guard_part);
        assert(content_tier == content_tier_of(content));
    }
    AdaptiveEcoPlan {
        effective_mode: owned(base),
        recommended_mode: recommended,
        reason_codes: reasons,
        provider,
        model,
        cache_capability: owned(capability),
        shadow_only: !input.enforce,
        enforce: input.enforce,
        content_recommendation: content_name,
        compression_profile_id: profile,
        cache_effective_ttl_secs: ttl_out,
        cache_prompt_streak: streak_out,
    }
}

/// The content recommendation a turn is planned with: `ainl_compression`'s recommendation
/// (tier and reasons) for the user message when adaptive compression is on, none otherwise.
pub open spec fn resolved_content(input: &EcoTurnInput, message: Seq<char>) -> Option<(u8, Seq<Seq<char>>)> {
    if input.adaptive_compression {
        Some(content_recommendation(message))
    } else {
        None
    }
}

/// The tier of [`resolved_content`].
pub open spec fn resolved_tier(input: &EcoTurnInput, message: Seq<char>) -> Option<u8> {
    match resolved_content(input, message) {
        Some(c) => Some(c.0),
        None => None,
    }
}

/// The reasons of [`resolved_content`].
pub open spec fn resolved_reasons(input: &EcoTurnInput, message: Seq<char>) -> Option<Seq<Seq<char>>> {
    match resolved_content(input, message) {
        Some(c) => Some(c.1),
        None => None,
    }
}

/// Resolve adaptive eco mode for one turn: when adaptive compression is on, asks
/// `ainl_compression` for a content recommendation on the user message and plans with it
/// (see [`plan_adaptive_eco_turn`]).
pub fn resolve_adaptive_eco_turn(
    input: &EcoTurnInput,
    user_message: &str,
    streaks: &mut CacheStreaks,
) -> (r: AdaptiveEcoPlan)
    requires
        old(streaks).wf(),
    ensures
        final(streaks).wf(),
        r.provider@ == trim(input.provider@),
        r.model@ == trim(input.model@),
        r.cache_capability@ == capability_of(trim(input.provider@)),
        r.effective_mode@ == base_mode_of(opt_view(input.efficient_mode)),
        r.recommended_mode@ == plan_recommendation(
            input,
            user_message@,
            resolved_tier(input, user_message@),
        ),
        r.shadow_only == !input.enforce,
        r.enforce == input.enforce,
        opt_view(r.compression_profile_id) == plan_profile(input),
        string_views(r.reason_codes@) == plan_reasons(
            capability_of(trim(input.provider@)),
            opt_view(input.price_code),
            plan_profile(input),
            resolved_reasons(input, user_message@),
            plan_ttl(input, old(streaks).view()),
            plan_guarded(input, user_message@, resolved_tier(input, user_message@)),
            input.enforce,
        ),
        input.adaptive_compression ==> opt_view(r.content_recommendation) == Some(
            tier_name(content_recommendation(user_message@).0),
        ) && r.cache_prompt_streak == Some(plan_streak(input, old(streaks).view()))
            && r.cache_effective_ttl_secs == Some(plan_ttl(input, old(streaks).view()))
            && final(streaks).view() == old(streaks).view().insert(
            input.agent_name@,
            (plan_key(input), plan_streak(input, old(streaks).view())),
        ),
        !input.adaptive_compression ==> r.content_recommendation is None
            && r.cache_prompt_streak is None && r.cache_effective_ttl_secs is None
            && final(streaks).view() == old(streaks).view(),
{
    let content = if input.adaptive_compression {
        Some(recommend_for_content(user_message))
    } else {
        None
    };
    proof {
        assert(content_tier_of(content) == resolved_tier(input, user_message@));
        assert(content_reasons_of(content) == resolved_reasons(input, user_message@));
    }
    plan_adaptive_eco_turn(input, user_message, content, streaks)
}

/// The recommended mode of a turn is always `off`, `balanced` or `aggressive`; a turn whose
/// base mode is off is never raised; and a structured-payload-heavy message never gets
/// `aggressive` unless aggressive is allowed on structured payloads.
pub proof fn law_recommendation_bounds(input: &EcoTurnInput, message: Seq<char>, content_tier: Option<u8>)
    ensures
        plan_recommendation(input, message, content_tier) == "off"@
            || plan_recommendation(input, message, content_tier) == "balanced"@
            || plan_recommendation(input, message, content_tier) == "aggressive"@,
        base_mode_of(opt_view(input.efficient_mode)) == "off"@ ==> plan_recommendation(
            input,
            message,
            content_tier,
        ) == "off"@,
        payload_heavy(message) && !input.allow_aggressive_on_structured ==> plan_recommendation(
            input,
            message,
            content_tier,
        ) != "aggressive"@,
{
    let b = base_mode_of(opt_view(input.efficient_mode));
    let rb = recommendation_before_guard(b, content_tier);
    assert(b == "off"@ || b == "balanced"@ || b == "aggressive"@) by {
        lemma_normalized_is_mode(match opt_view(input.efficient_mode) {
            Some(m) => m,
            None => "off"@,
        });
    }
    assert(rb == "off"@ || rb == "balanced"@ || rb == "aggressive"@);
    if b == "off"@ {
        assert(tier_of(b) == 0) by {
            lemma_normalized_idempotent(opt_view(input.efficient_mode));
            reveal_strlit("off");
            reveal_strlit("balanced");
            reveal_strlit("aggressive");
        }
        assert(rb == "off"@) by {
            reveal_strlit("off");
            reveal_strlit("aggressive");
        }
    }
    assert("balanced"@ != "aggressive"@) by {
        reveal_strlit("balanced");
        reveal_strlit("aggressive");
        assert("balanced"@.len() != "aggressive"@.len());
    }
}

/// Normalizing always gives `off`, `balanced` or `aggressive`, and normalizing that again
/// changes nothing.
pub proof fn law_normalize_mode_idempotent(raw: Seq<char>)
    ensures
        normalized_mode(raw) == "off"@ || normalized_mode(raw) == "balanced"@
            || normalized_mode(raw) == "aggressive"@,
        normalized_mode(normalized_mode(raw)) == normalized_mode(raw),
{
    lemma_normalized_is_mode(raw);
    lemma_normalized_idempotent(Some(raw));
}

/// Normalizing gives one of the three modes.
proof fn lemma_normalized_is_mode(raw: Seq<char>)
    ensures
        normalized_mode(raw) == "off"@ || normalized_mode(raw) == "balanced"@
            || normalized_mode(raw) == "aggressive"@,
{
}

} // verus!
