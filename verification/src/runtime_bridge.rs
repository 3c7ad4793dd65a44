//! The host side of the optional graph-runtime engine: its turn status and telemetry as the
//! host sees them, construction errors, the text and tool list a finished runtime turn maps
//! to, and the per-agent cache of constructed bridges with its counters.

use vstd::prelude::*;
use crate::agent_map::AgentMap;
use crate::text::{append_chars, append_str, chars_to_string, decimal, owned, str_chars, string_views, trim, trim_range, sub_vec, u64_decimal};

verus! {

/// Soft outcome of a runtime turn (step cap reached, graph memory off).
#[derive(Debug, Clone, Copy, PartialEq, Eq, Structural)]
pub enum AinlBridgeTurnStatus {
    /// The turn completed normally (rendered `Ok`).
    Success,
    StepLimitExceeded { steps_executed: u32 },
    GraphMemoryDisabled,
}

/// Summary of a runtime turn as the host reports it.
#[derive(Debug, Clone, Copy, PartialEq, Eq, Structural)]
pub struct AinlBridgeTelemetry {
    pub turn_status: AinlBridgeTurnStatus,
    pub partial_success: bool,
    pub warning_count: usize,
    pub has_extraction_report: bool,
    pub memory_context_recent_episodes: usize,
    pub memory_context_relevant_semantic: usize,
    pub memory_context_active_patches: usize,
    pub memory_context_has_persona_snapshot: bool,
    pub patch_dispatch_count: usize,
    pub patch_dispatch_adapter_output_count: usize,
    pub steps_executed: u64,
}

/// Why a bridge could not be constructed.
pub enum AinlRuntimeBridgeInitError {
    GraphWriterBusy,
    GraphPathResolve(String),
    SqliteOpen(String),
    EvolutionWriteInvariant,
}

/// The message of a construction error.
pub open spec fn init_error_text(e: AinlRuntimeBridgeInitError) -> Seq<char> {
    match e {
        AinlRuntimeBridgeInitError::GraphWriterBusy => "GraphMemoryWriter mutex is held; cannot construct bridge synchronously"@,
        AinlRuntimeBridgeInitError::GraphPathResolve(m) => "failed to resolve graph sqlite path: "@ + m@,
        AinlRuntimeBridgeInitError::SqliteOpen(m) => "failed to open graph sqlite store: "@ + m@,
        AinlRuntimeBridgeInitError::EvolutionWriteInvariant => "evolution writes must stay disabled to avoid dual-writer persona races with openfang-runtime"@,
    }
}

impl AinlRuntimeBridgeInitError {
    /// The error's message.
    pub fn message(&self) -> (r: String)
        ensures
            r@ == init_error_text(*self),
    {
        match self {
            AinlRuntimeBridgeInitError::GraphWriterBusy => owned(
                "GraphMemoryWriter mutex is held; cannot construct bridge synchronously",
            ),
            AinlRuntimeBridgeInitError::GraphPathResolve(m) => {
                let mut v = str_chars("failed to resolve graph sqlite path: ");
                append_str(&mut v, m.as_str());
                chars_to_string(v.as_slice())
            },
            AinlRuntimeBridgeInitError::SqliteOpen(m) => {
                let mut v = str_chars("failed to open graph sqlite store: ");
                append_str(&mut v, m.as_str());
                chars_to_string(v.as_slice())
            },
            AinlRuntimeBridgeInitError::EvolutionWriteInvariant => owned(
                "evolution writes must stay disabled to avoid dual-writer persona races with openfang-runtime",
            ),
        }
    }
}

/// The runtime's nested-turn depth guard: the host's cap, at least 1.
pub fn effective_delegation_depth(max_delegation_depth: u32) -> (r: u32)
    ensures
        r == if max_delegation_depth < 1 { 1 } else { max_delegation_depth },
{
    if max_delegation_depth < 1 {
        1
    } else {
        max_delegation_depth
    }
}

/// A status as its debug rendering.
pub open spec fn status_text(s: AinlBridgeTurnStatus) -> Seq<char> {
    match s {
        AinlBridgeTurnStatus::Success => "Ok"@,
        AinlBridgeTurnStatus::StepLimitExceeded { steps_executed } => "StepLimitExceeded { steps_executed: "@
            + decimal(steps_executed as nat) + " }"@,
        AinlBridgeTurnStatus::GraphMemoryDisabled => "GraphMemoryDisabled"@,
    }
}

fn status_chars(s: AinlBridgeTurnStatus) -> (r: Vec<char>)
    ensures
        r@ == status_text(s),
{
    match s {
        AinlBridgeTurnStatus::Success => str_chars("Ok"),
        AinlBridgeTurnStatus::StepLimitExceeded { steps_executed } => {
            let mut v = str_chars("StepLimitExceeded { steps_executed: ");
            let d = u64_decimal(steps_executed as u64);
            append_chars(&mut v, d.as_slice());
            append_str(&mut v, " }");
            v
        },
        AinlBridgeTurnStatus::GraphMemoryDisabled => str_chars("GraphMemoryDisabled"),
    }
}

/// The session text of a runtime turn: the trimmed persona contribution when it is not
/// blank, else a line naming the episode, the status and the step count.
pub open spec fn turn_output_text(
    persona: Option<Seq<char>>,
    episode_id: Seq<char>,
    status: AinlBridgeTurnStatus,
    steps: u64,
) -> Seq<char> {
    match persona {
        Some(p) if trim(p).len() > 0 => trim(p),
        _ => "[ainl-runtime] turn finished (episode_id="@ + episode_id + ", status="@ + status_text(status)
            + ", steps="@ + decimal(steps as nat) + ")"@,
    }
}

/// The session text of a runtime turn.
pub fn build_output_text(persona: Option<&str>, episode_id: &str, status: AinlBridgeTurnStatus, steps: u64) -> (r: String)
    ensures
        r@ == turn_output_text(
            match persona {
                Some(p) => Some(p@),
                None => None,
            },
            episode_id@,
            status,
            steps,
        ),
{
    match persona {
        Some(p) => {
            let c = str_chars(p);
            let (a, b) = trim_range(c.as_slice(), 0, c.len());
            assert(c@.subrange(0, c@.len() as int) =~= c@);
            if a != b {
                let t = sub_vec(c.as_slice(), a, b);
                return chars_to_string(t.as_slice());
            }
        },
        None => {},
    }
    let mut v = str_chars("[ainl-runtime] turn finished (episode_id=");
    append_str(&mut v, episode_id);
    append_str(&mut v, ", status=");
    let st = status_chars(status);
    append_chars(&mut v, st.as_slice());
    append_str(&mut v, ", steps=");
    let d = u64_decimal(steps);
    append_chars(&mut v, d.as_slice());
    append_str(&mut v, ")");
    chars_to_string(v.as_slice())
}

/// The tools of a runtime turn: the host's invoked tools, then each patch adapter not yet
/// listed, or `turn` when there are none.
pub open spec fn merged_tools(invoked: Seq<Seq<char>>, adapters: Seq<Option<Seq<char>>>) -> Seq<Seq<char>> {
    let m = merge_adapters(invoked, adapters);
    if m.len() == 0 {
        seq!["turn"@]
    } else {
        m
    }
}

/// `invoked` extended by the adapters, each added when not already present.
pub open spec fn merge_adapters(invoked: Seq<Seq<char>>, adapters: Seq<Option<Seq<char>>>) -> Seq<Seq<char>>
    decreases adapters.len(),
{
    if adapters.len() == 0 {
        invoked
    } else {
        let prev = merge_adapters(invoked, adapters.drop_last());
        match adapters.last() {
            Some(n) => if prev.contains(n) {
                prev
            } else {
                prev.push(n)
            },
            None => prev,
        }
    }
}

/// The views of optional strings.
pub open spec fn opt_views(v: Seq<Option<String>>) -> Seq<Option<Seq<char>>> {
    v.map_values(|o: Option<String>| match o {
        Some(s) => Some(s@),
        None => None,
    })
}

/// The tools a runtime turn reports.
pub fn merge_turn_tool_calls(tools_invoked: &[String], adapter_names: &[Option<String>]) -> (r: Vec<String>)
    ensures
        string_views(r@) == merged_tools(string_views(tools_invoked@), opt_views(adapter_names@)),
{
    let mut out: Vec<String> = Vec::new();
    let mut i: usize = 0;
    while i < tools_invoked.len()
        invariant
            i <= tools_invoked@.len(),
            string_views(out@) == string_views(tools_invoked@).take(i as int),
        decreases tools_invoked.len() - i,
    {
        let ghost before = string_views(out@);
        let t = tools_invoked[i].clone();
        assert(t@ == tools_invoked@[i as int]@);
        out.push(t);
        assert(string_views(out@) =~= before.push(tools_invoked@[i as int]@));
        assert(string_views(tools_invoked@).take(i + 1) =~= string_views(tools_invoked@).take(i as int).push(tools_invoked@[i as int]@));
        i = i + 1;
    }
    assert(string_views(tools_invoked@).take(tools_invoked@.len() as int) =~= string_views(tools_invoked@));
    let ghost av = opt_views(adapter_names@);
    let mut j: usize = 0;
    while j < adapter_names.len()
        invariant
            j <= adapter_names@.len(),
            av == opt_views(adapter_names@),
            string_views(out@) == merge_adapters(string_views(tools_invoked@), av.take(j as int)),
        decreases adapter_names.len() - j,
    {
        proof {
            assert(av.take(j + 1).drop_last() =~= av.take(j as int));
            assert(av.take(j + 1).last() == av[j as int]);
        }
        match &adapter_names[j] {
            Some(n) => {
                let mut seen = false;
                let mut k: usize = 0;
                while k < out.len()
                    invariant
                        k <= out@.len(),
                        seen == exists|q: int| 0 <= q < k && out@[q]@ == n@,
                    decreases out.len() - k,
                {
                    if out[k] == *n {
                        seen = true;
                    }
                    k = k + 1;
                }
                proof {
                    let sv = string_views(out@);
                    if seen {
                        let q = choose|q: int| 0 <= q < k && out@[q]@ == n@;
                        assert(sv[q] == n@);
                    } else {
                        assert(!sv.contains(n@)) by {
                            if sv.contains(n@) {
                                let q = choose|q: int| 0 <= q < sv.len() && sv[q] == n@;
                                assert(out@[q]@ == n@);
                            }
                        }
                    }
                }
                if !seen {
                    let ghost before = string_views(out@);
                    out.push(n.clone());
                    assert(string_views(out@) =~= before.push(n@));
                }
            },
            None => {},
        }
        j = j + 1;
    }
    assert(av.take(adapter_names@.len() as int) =~= av);
    if out.len() == 0 {
        let mut t: Vec<String> = Vec::new();
        t.push(owned("turn"));
        assert(string_views(t@) =~= seq!["turn"@]);
        return t;
    }
    out
}

// ---------------------------------------------------------------------------
// Bridge cache
// ---------------------------------------------------------------------------

/// The cache key of an agent's bridge: `agent:depth`.
pub open spec fn cache_key_text(agent_id: Seq<char>, depth: u32) -> Seq<char> {
    agent_id + ":"@ + decimal(depth as nat)
}

/// The cache key of an agent's bridge.
pub fn ainl_runtime_bridge_cache_key(agent_id: &str, max_delegation_depth: u32) -> (r: String)
    ensures
        r@ == cache_key_text(agent_id@, max_delegation_depth),
{
    let mut v = str_chars(agent_id);
    append_str(&mut v, ":");
    let d = u64_decimal(max_delegation_depth as u64);
    append_chars(&mut v, d.as_slice());
    chars_to_string(v.as_slice())
}

/// Counters of the bridge cache: hits, misses, construction failures, run failures
/// (each wraps around like an atomic counter).
#[derive(Debug, Clone, Copy, PartialEq, Eq, Structural)]
pub struct BridgeCacheMetrics {
    pub hits: u64,
    pub misses: u64,
    pub construct_failures: u64,
    pub run_failures: u64,
}

/// A counter after one more event.
pub open spec fn bumped(c: u64) -> u64 {
    if c == u64::MAX {
        0
    } else {
        (c + 1) as u64
    }
}

fn bump(c: u64) -> (r: u64)
    ensures
        r == bumped(c),
{
    if c == u64::MAX {
        0
    } else {
        c + 1
    }
}

/// Constructed bridges by cache key, with the cache's counters.
pub struct BridgeCache<V> {
    pub entries: AgentMap<V>,
    pub metrics: BridgeCacheMetrics,
}

impl<V> BridgeCache<V> {
    /// The cache is internally consistent.
    pub open spec fn wf(&self) -> bool {
        self.entries.wf()
    }

    /// An empty cache with zero counters.
    pub fn new() -> (r: Self)
        ensures
            r.wf(),
            r.entries.view() == Map::<Seq<char>, V>::empty(),
            r.metrics == (BridgeCacheMetrics { hits: 0, misses: 0, construct_failures: 0, run_failures: 0 }),
    {
        BridgeCache {
            entries: AgentMap::new(),
            metrics: BridgeCacheMetrics { hits: 0, misses: 0, construct_failures: 0, run_failures: 0 },
        }
    }

    /// The cached bridge for `key`, counting a hit when there is one and a miss otherwise.
    pub fn lookup(&mut self, key: &str) -> (r: Option<&V>)
        requires
            old(self).wf(),
        ensures
            final(self).wf(),
            final(self).entries.view() == old(self).entries.view(),
            match r {
                Some(v) => old(self).entries.view().dom().contains(key@)
                    && old(self).entries.view()[key@] == *v
                    && final(self).metrics == (BridgeCacheMetrics { hits: bumped(old(self).metrics.hits), ..old(self).metrics }),
                None => !old(self).entries.view().dom().contains(key@)
                    && final(self).metrics == (BridgeCacheMetrics { misses: bumped(old(self).metrics.misses), ..old(self).metrics }),
            },
    {
        let hit = match self.entries.get(key) {
            Some(_) => true,
            None => false,
        };
        if hit {
            self.metrics.hits = bump(self.metrics.hits);
        } else {
            self.metrics.misses = bump(self.metrics.misses);
        }
        self.entries.get(key)
    }

    /// Stores a newly constructed bridge.
    pub fn insert(&mut self, key: &str, v: V)
        requires
            old(self).wf(),
        ensures
            final(self).wf(),
            final(self).entries.view() == old(self).entries.view().insert(key@, v),
            final(self).metrics == old(self).metrics,
    {
        self.entries.insert(key, v);
    }

    /// Counts a failed construction.
    pub fn record_construct_failure(&mut self)
        ensures
            final(self).entries == old(self).entries,
            final(self).metrics == (BridgeCacheMetrics { construct_failures: bumped(old(self).metrics.construct_failures), ..old(self).metrics }),
    {
        self.metrics.construct_failures = bump(self.metrics.construct_failures);
    }

    /// Counts a failed runtime turn.
    pub fn record_run_failure(&mut self)
        ensures
            final(self).entries == old(self).entries,
            final(self).metrics == (BridgeCacheMetrics { run_failures: bumped(old(self).metrics.run_failures), ..old(self).metrics }),
    {
        self.metrics.run_failures = bump(self.metrics.run_failures);
    }

    /// The counters: hits, misses, construction failures, run failures.
    pub fn ainl_runtime_bridge_cache_metrics_snapshot(&self) -> (r: (u64, u64, u64, u64))
        ensures
            r == (self.metrics.hits, self.metrics.misses, self.metrics.construct_failures, self.metrics.run_failures),
    {
        (self.metrics.hits, self.metrics.misses, self.metrics.construct_failures, self.metrics.run_failures)
    }

    /// Empties the cache and zeroes its counters.
    pub fn clear(&mut self)
        ensures
            final(self).wf(),
            final(self).entries.view() == Map::<Seq<char>, V>::empty(),
            final(self).metrics == (BridgeCacheMetrics { hits: 0, misses: 0, construct_failures: 0, run_failures: 0 }),
    {
        self.entries = AgentMap::new();
        self.metrics = BridgeCacheMetrics { hits: 0, misses: 0, construct_failures: 0, run_failures: 0 };
    }
}

} // verus!
