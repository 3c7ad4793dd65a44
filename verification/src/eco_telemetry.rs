//! In-memory aggregates of eco-mode prompt compression, by mode and by agent and mode:
//! turn counts, token totals (saturating) and a bounded window of per-turn savings.

use vstd::prelude::*;
use std::collections::VecDeque;
use crate::agent_map::{keys_distinct, map_of};
use dashmap::DashMap;
use crate::text::{
    ascii_lower, chars_to_string, lower_chars, str_chars, sub_vec, trim, trim_range, append_str,
    append_chars,
};

verus! {

/// Most savings samples kept per aggregate (oldest dropped first).
pub const SAMPLE_CAP: usize = 2048;

/// One aggregate of compression outcomes.
pub struct CompressionStats {
    pub turns: u64,
    pub compressed_turns: u64,
    pub original_tokens: u64,
    pub compressed_tokens: u64,
    /// Savings percentages of the most recent turns, oldest first.
    pub savings_pct_samples: VecDeque<u8>,
}

/// The sample window after one more sample: the oldest is dropped when the window is full.
pub open spec fn next_samples(s: Seq<u8>, savings_pct: u8) -> Seq<u8> {
    if s.len() >= SAMPLE_CAP && s.len() > 0 {
        s.drop_first().push(savings_pct)
    } else {
        s.push(savings_pct)
    }
}

impl CompressionStats {
    /// An empty aggregate.
    pub fn new() -> (r: Self)
        ensures
            r.turns == 0,
            r.compressed_turns == 0,
            r.original_tokens == 0,
            r.compressed_tokens == 0,
            r.savings_pct_samples@ == Seq::<u8>::empty(),
    {
        CompressionStats {
            turns: 0,
            compressed_turns: 0,
            original_tokens: 0,
            compressed_tokens: 0,
            savings_pct_samples: VecDeque::new(),
        }
    }

    /// Adds one turn: counters saturate, a turn with positive savings counts as compressed,
    /// and the savings sample enters the bounded window.
    pub fn record(&mut self, original_tokens: u64, compressed_tokens: u64, savings_pct: u8)
        ensures
            final(self).turns == old(self).turns.saturating_add(1),
            final(self).compressed_turns == if savings_pct > 0 {
                old(self).compressed_turns.saturating_add(1)
            } else {
                old(self).compressed_turns
            },
            final(self).original_tokens == old(self).original_tokens.saturating_add(original_tokens),
            final(self).compressed_tokens == old(self).compressed_tokens.saturating_add(
                compressed_tokens,
            ),
            final(self).savings_pct_samples@ == next_samples(
                old(self).savings_pct_samples@,
                savings_pct,
            ),
    {
        self.turns = self.turns.saturating_add(1);
        if savings_pct > 0 {
            self.compressed_turns = self.compressed_turns.saturating_add(1);
        }
        self.original_tokens = self.original_tokens.saturating_add(original_tokens);
        self.compressed_tokens = self.compressed_tokens.saturating_add(compressed_tokens);
        if self.savings_pct_samples.len() >= SAMPLE_CAP {
            let _ = self.savings_pct_samples.pop_front();
            assert(old(self).savings_pct_samples@.subrange(1, old(self).savings_pct_samples@.len() as int)
                =~= old(self).savings_pct_samples@.drop_first());
        }
        self.savings_pct_samples.push_back(savings_pct);
    }
}

/// The sample window never grows beyond its cap.
pub proof fn law_samples_bounded(s: Seq<u8>, savings_pct: u8)
    requires
        s.len() <= SAMPLE_CAP,
    ensures
        next_samples(s, savings_pct).len() <= SAMPLE_CAP,
        next_samples(s, savings_pct).last() == savings_pct,
{
}

/// `len / 4 + 1`, the token estimate for a text of `len` UTF-8 bytes.
pub open spec fn approx_tokens(byte_len: nat) -> u64 {
    (byte_len / 4 + 1) as u64
}

/// Heuristic token estimate (~4 bytes per token, at least one).
pub fn approx_tok(s: &str) -> (r: u64)
    ensures
        r == approx_tokens(s.len() as nat),
{
    (s.len() / 4 + 1) as u64
}

/// `100 - v·100 / total` with saturating arithmetic; `0` when `total` is zero.
pub open spec fn reduction_pct(v: u64, total: u64) -> u64 {
    if total == 0 {
        0
    } else {
        let prod: int = if v * 100 > u64::MAX {
            u64::MAX as int
        } else {
            v * 100
        };
        (100u64).saturating_sub((prod / total as int) as u64)
    }
}

/// Percentage reduction of `v` relative to `total`.
pub fn pct(v: u64, total: u64) -> (r: u64)
    ensures
        r == reduction_pct(v, total),
{
    if total == 0 {
        0
    } else {
        let prod: u64 = if v > u64::MAX / 100 {
            u64::MAX
        } else {
            v * 100
        };
        100u64.saturating_sub(prod / total)
    }
}

/// The mode key an outcome is aggregated under: trimmed, ASCII-lowercased, `off` when empty.
pub open spec fn mode_key(mode: Seq<char>) -> Seq<char> {
    let m = ascii_lower(trim(mode));
    if m.len() == 0 {
        "off"@
    } else {
        m
    }
}

/// Key of the per-agent aggregate: `<agent_id>::<mode>`.
pub open spec fn agent_mode_key(agent_id: Seq<char>, mode: Seq<char>) -> Seq<char> {
    agent_id + "::"@ + mode_key(mode)
}

/// The counters of an aggregate (the sample window aside).
pub open spec fn stats_counters(s: CompressionStats) -> (u64, u64, u64, u64) {
    (s.turns, s.compressed_turns, s.original_tokens, s.compressed_tokens)
}

/// The sample window of an aggregate.
pub open spec fn stats_samples(s: CompressionStats) -> Seq<u8> {
    s.savings_pct_samples@
}

/// The sample window stored under `key`, or an empty one.
pub open spec fn samples_or_empty(m: Map<Seq<char>, Seq<u8>>, key: Seq<char>) -> Seq<u8> {
    if m.dom().contains(key) {
        m[key]
    } else {
        Seq::<u8>::empty()
    }
}

/// Every sample window holds at most [`SAMPLE_CAP`] samples.
pub open spec fn samples_within_cap(m: Map<Seq<char>, Seq<u8>>) -> bool {
    forall|k: Seq<char>| m.dom().contains(k) ==> (#[trigger] m[k]).len() <= SAMPLE_CAP
}

/// Counters of an aggregate after one more recorded turn.
pub open spec fn recorded_counters(
    c: (u64, u64, u64, u64),
    orig: u64,
    comp: u64,
    savings_pct: u8,
) -> (u64, u64, u64, u64) {
    (
        c.0.saturating_add(1),
        if savings_pct > 0 {
            c.1.saturating_add(1)
        } else {
            c.1
        },
        c.2.saturating_add(orig),
        c.3.saturating_add(comp),
    )
}

/// A map from aggregate key to its aggregate.
pub type StatsMap = DashMap<String, CompressionStats>;

/// Name for what an aggregate map holds: each key's characters and its aggregate.
pub uninterp spec fn stats_entries(m: StatsMap) -> Map<Seq<char>, CompressionStats>;

/// `DashMap::new`: a map that holds nothing.
#[verifier::external_body]
fn new_stats_map() -> (r: StatsMap)
    ensures
        stats_entries(r).dom() == Set::<Seq<char>>::empty(),
{
    DashMap::new()
}

/// `DashMap::insert`: stores `s` under `key`, replacing any earlier aggregate.
#[verifier::external_body]
fn insert_stats(m: &mut StatsMap, key: &str, s: CompressionStats)
    ensures
        stats_entries(*final(m)) == stats_entries(*old(m)).insert(key@, s),
{
    m.insert(key.to_string(), s);
}

/// `DashMap::remove`: takes out the aggregate stored under `key`, if any.
#[verifier::external_body]
fn remove_stats(m: &mut StatsMap, key: &str) -> (r: Option<CompressionStats>)
    ensures
        stats_entries(*final(m)) == stats_entries(*old(m)).remove(key@),
        match r {
            Some(s) => stats_entries(*old(m)).dom().contains(key@) && stats_entries(*old(m))[key@] == s,
            None => !stats_entries(*old(m)).dom().contains(key@),
        },
{
    m.remove(key).map(|(_, s)| s)
}

/// `DashMap::get`: the counters of the aggregate stored under `key`, if any.
#[verifier::external_body]
fn get_counters(m: &StatsMap, key: &str) -> (r: Option<(u64, u64, u64, u64)>)
    ensures
        match r {
            Some(c) => stats_entries(*m).dom().contains(key@) && stats_counters(stats_entries(*m)[key@]) == c,
            None => !stats_entries(*m).dom().contains(key@),
        },
{
    m.get(key).map(|s| (s.turns, s.compressed_turns, s.original_tokens, s.compressed_tokens))
}

/// `DashMap::iter`: every key with a copy of its aggregate (counters and sample window),
/// each once; the order is the map's walk, which the contract leaves open.
#[verifier::external_body]
fn stats_snapshot(m: &StatsMap) -> (r: Vec<(String, CompressionStats)>)
    ensures
        keys_distinct(r@) && map_of(r@).map_values(|s: CompressionStats| stats_counters(s))
            == stats_entries(*m).map_values(|s: CompressionStats| stats_counters(s)) && map_of(
            r@,
        ).map_values(|s: CompressionStats| stats_samples(s)) == stats_entries(*m).map_values(
            |s: CompressionStats| stats_samples(s),
        ),
{
    m.iter().map(|e| (e.key().clone(), CompressionStats {
        turns: e.turns,
        compressed_turns: e.compressed_turns,
        original_tokens: e.original_tokens,
        compressed_tokens: e.compressed_tokens,
        savings_pct_samples: e.savings_pct_samples.clone(),
    })).collect()
}

/// Aggregates by mode and by agent and mode.
pub struct EcoTelemetry {
    mode_totals: StatsMap,
    agent_mode_totals: StatsMap,
}

impl EcoTelemetry {
    /// Counters by mode.
    pub closed spec fn by_mode(&self) -> Map<Seq<char>, (u64, u64, u64, u64)> {
        stats_entries(self.mode_totals).map_values(|s: CompressionStats| stats_counters(s))
    }

    /// Counters by `<agent_id>::<mode>`.
    pub closed spec fn by_agent_mode(&self) -> Map<Seq<char>, (u64, u64, u64, u64)> {
        stats_entries(self.agent_mode_totals).map_values(|s: CompressionStats| stats_counters(s))
    }

    /// Sample windows by mode.
    pub closed spec fn mode_samples(&self) -> Map<Seq<char>, Seq<u8>> {
        stats_entries(self.mode_totals).map_values(|s: CompressionStats| stats_samples(s))
    }

    /// Sample windows by `<agent_id>::<mode>`.
    pub closed spec fn agent_mode_samples(&self) -> Map<Seq<char>, Seq<u8>> {
        stats_entries(self.agent_mode_totals).map_values(|s: CompressionStats| stats_samples(s))
    }

    /// Internal consistency: no sample window exceeds its cap.
    pub closed spec fn wf(&self) -> bool {
        &&& samples_within_cap(self.mode_samples())
        &&& samples_within_cap(self.agent_mode_samples())
    }

    /// No turns recorded.
    pub fn new() -> (r: Self)
        ensures
            r.wf(),
            r.by_mode() == Map::<Seq<char>, (u64, u64, u64, u64)>::empty(),
            r.by_agent_mode() == Map::<Seq<char>, (u64, u64, u64, u64)>::empty(),
            r.mode_samples() == Map::<Seq<char>, Seq<u8>>::empty(),
            r.agent_mode_samples() == Map::<Seq<char>, Seq<u8>>::empty(),
    {
        let r = EcoTelemetry { mode_totals: new_stats_map(), agent_mode_totals: new_stats_map() };
        assert(r.by_mode() =~= Map::<Seq<char>, (u64, u64, u64, u64)>::empty());
        assert(r.by_agent_mode() =~= Map::<Seq<char>, (u64, u64, u64, u64)>::empty());
        assert(r.mode_samples() =~= Map::<Seq<char>, Seq<u8>>::empty());
        assert(r.agent_mode_samples() =~= Map::<Seq<char>, Seq<u8>>::empty());
        r
    }

    /// The aggregates by mode, one entry per mode, with their sample windows.
    pub fn mode_entries(&self) -> (r: Vec<(String, CompressionStats)>)
        requires
            self.wf(),
        ensures
            keys_distinct(r@),
            map_of(r@).map_values(|s: CompressionStats| stats_counters(s)) == self.by_mode(),
            map_of(r@).map_values(|s: CompressionStats| stats_samples(s)) == self.mode_samples(),
    {
        stats_snapshot(&self.mode_totals)
    }

    /// The aggregates by `<agent_id>::<mode>`, one entry per key, with their sample windows.
    pub fn agent_mode_entries(&self) -> (r: Vec<(String, CompressionStats)>)
        requires
            self.wf(),
        ensures
            keys_distinct(r@),
            map_of(r@).map_values(|s: CompressionStats| stats_counters(s)) == self.by_agent_mode(),
            map_of(r@).map_values(|s: CompressionStats| stats_samples(s)) == self.agent_mode_samples(),
    {
        stats_snapshot(&self.agent_mode_totals)
    }

    /// Counters (turns, compressed turns, original and compressed tokens) of a mode.
    pub fn mode_stats(&self, mode: &str) -> (r: Option<(u64, u64, u64, u64)>)
        requires
            self.wf(),
        ensures
            r == if self.by_mode().dom().contains(mode@) {
                Some(self.by_mode()[mode@])
            } else {
                None::<(u64, u64, u64, u64)>
            },
    {
        get_counters(&self.mode_totals, mode)
    }

    /// Counters of an `<agent_id>::<mode>` aggregate.
    pub fn agent_mode_stats(&self, key: &str) -> (r: Option<(u64, u64, u64, u64)>)
        requires
            self.wf(),
        ensures
            r == if self.by_agent_mode().dom().contains(key@) {
                Some(self.by_agent_mode()[key@])
            } else {
                None::<(u64, u64, u64, u64)>
            },
    {
        get_counters(&self.agent_mode_totals, key)
    }
}

/// The zero counters of an aggregate that does not exist yet.
pub open spec fn zero_counters() -> (u64, u64, u64, u64) {
    (0, 0, 0, 0)
}

/// Counters stored under `key`, or zero.
pub open spec fn counters_or_zero(m: Map<Seq<char>, (u64, u64, u64, u64)>, key: Seq<char>) -> (u64, u64, u64, u64) {
    if m.dom().contains(key) {
        m[key]
    } else {
        zero_counters()
    }
}

fn record_into(
    map: &mut StatsMap,
    key: &str,
    orig: u64,
    comp: u64,
    savings_pct: u8,
)
    requires
        samples_within_cap(stats_entries(*old(map)).map_values(|s: CompressionStats| stats_samples(s))),
    ensures
        samples_within_cap(stats_entries(*final(map)).map_values(|s: CompressionStats| stats_samples(s))),
        stats_entries(*final(map)).map_values(|s: CompressionStats| stats_samples(s)) == stats_entries(*old(map)).map_values(
            |s: CompressionStats| stats_samples(s),
        ).insert(
            key@,
            next_samples(
                samples_or_empty(
                    stats_entries(*old(map)).map_values(|s: CompressionStats| stats_samples(s)),
                    key@,
                ),
                savings_pct,
            ),
        ),
        stats_entries(*final(map)).map_values(|s: CompressionStats| stats_counters(s)) == stats_entries(*old(map)).map_values(
            |s: CompressionStats| stats_counters(s),
        ).insert(
            key@,
            recorded_counters(
                counters_or_zero(
                    stats_entries(*old(map)).map_values(|s: CompressionStats| stats_counters(s)),
                    key@,
                ),
                orig,
                comp,
                savings_pct,
            ),
        ),
{
    let ghost before = stats_entries(*map);
    let mut stats = match remove_stats(map, key) {
        Some(s) => s,
        None => CompressionStats::new(),
    };
    let ghost prev = stats;
    stats.record(orig, comp, savings_pct);
    insert_stats(map, key, stats);
    proof {
        let f = |s: CompressionStats| stats_counters(s);
        let g = |s: CompressionStats| stats_samples(s);
        assert(stats_counters(stats) == recorded_counters(stats_counters(prev), orig, comp, savings_pct));
        assert(stats_entries(*map).map_values(f) =~= before.map_values(f).insert(
            key@,
            recorded_counters(counters_or_zero(before.map_values(f), key@), orig, comp, savings_pct),
        ));
        assert(stats_samples(prev) == samples_or_empty(before.map_values(g), key@));
        assert(stats_entries(*map).map_values(g) =~= before.map_values(g).insert(
            key@,
            next_samples(samples_or_empty(before.map_values(g), key@), savings_pct),
        ));
        law_samples_bounded(stats_samples(prev), savings_pct);
        let m2 = stats_entries(*map).map_values(g);
        assert forall|k: Seq<char>| m2.dom().contains(k) implies (#[trigger] m2[k]).len() <= SAMPLE_CAP by {
            if k != key@ {
                assert(before.map_values(g).dom().contains(k));
            }
        }
    }
}

/// Record one completed turn's compression outcome under its mode and under the agent and
/// mode. Token counts are estimated from the texts' UTF-8 lengths.
pub fn record_turn(
    telemetry: &mut EcoTelemetry,
    agent_id: &str,
    mode: &str,
    original_text: &str,
    compressed_text: &str,
    savings_pct: u8,
)
    requires
        old(telemetry).wf(),
    ensures
        final(telemetry).wf(),
        samples_within_cap(final(telemetry).mode_samples()),
        samples_within_cap(final(telemetry).agent_mode_samples()),
        final(telemetry).mode_samples() == old(telemetry).mode_samples().insert(
            mode_key(mode@),
            next_samples(samples_or_empty(old(telemetry).mode_samples(), mode_key(mode@)), savings_pct),
        ),
        final(telemetry).agent_mode_samples() == old(telemetry).agent_mode_samples().insert(
            agent_mode_key(agent_id@, mode@),
            next_samples(
                samples_or_empty(old(telemetry).agent_mode_samples(), agent_mode_key(agent_id@, mode@)),
                savings_pct,
            ),
        ),
        final(telemetry).by_mode() == old(telemetry).by_mode().insert(
            mode_key(mode@),
            recorded_counters(
                counters_or_zero(old(telemetry).by_mode(), mode_key(mode@)),
                approx_tokens(original_text.len() as nat),
                approx_tokens(compressed_text.len() as nat),
                savings_pct,
            ),
        ),
        final(telemetry).by_agent_mode() == old(telemetry).by_agent_mode().insert(
            agent_mode_key(agent_id@, mode@),
            recorded_counters(
                counters_or_zero(old(telemetry).by_agent_mode(), agent_mode_key(agent_id@, mode@)),
                approx_tokens(original_text.len() as nat),
                approx_tokens(compressed_text.len() as nat),
                savings_pct,
            ),
        ),
{
    let v = str_chars(mode);
    let (a, b) = trim_range(v.as_slice(), 0, v.len());
    assert(v@.subrange(0, v@.len() as int) =~= v@);
    let t = sub_vec(v.as_slice(), a, b);
    let lv = lower_chars(t.as_slice());
    let key_chars = if lv.len() == 0 {
        str_chars("off")
    } else {
        lv
    };
    let mode_s = chars_to_string(key_chars.as_slice());
    let orig_tok = approx_tok(original_text);
    let comp_tok = approx_tok(compressed_text);
    record_into(&mut telemetry.mode_totals, mode_s.as_str(), orig_tok, comp_tok, savings_pct);
    let mut ak = str_chars(agent_id);
    append_str(&mut ak, "::");
    append_chars(&mut ak, key_chars.as_slice());
    let agent_key = chars_to_string(ak.as_slice());
    record_into(&mut telemetry.agent_mode_totals, agent_key.as_str(), orig_tok, comp_tok, savings_pct);
}

} // verus!
