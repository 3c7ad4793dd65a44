//! Per-provider LLM call counters (requests, errors, in-flight, latency) and the escaping
//! of provider names for Prometheus label values.

use vstd::prelude::*;
use crate::agent_map::{keys_distinct, map_of};
use dashmap::DashMap;
use crate::text::{append_chars, append_str, chars_to_string, decimal, i64_decimal, owned, signed_decimal, str_chars, u64_decimal};

verus! {

/// Aggregated counters for one provider label. Counters wrap around on overflow, as the
/// atomic counters they model do.
#[derive(Debug, Clone, Copy)]
pub struct ProviderLlmAgg {
    pub requests: u64,
    pub errors: u64,
    pub in_flight: i64,
    pub latency_sum_ns: u64,
    pub latency_count: u64,
}

/// `x + 1` modulo 2^64.
pub open spec fn bump(x: u64) -> u64 {
    vstd::wrapping::u64_specs::wrapping_add(x, 1)
}

/// Nanoseconds as recorded: capped at `u64::MAX`.
pub open spec fn capped_ns(elapsed_ns: u128) -> u64 {
    if elapsed_ns > u64::MAX as u128 {
        u64::MAX
    } else {
        elapsed_ns as u64
    }
}

impl ProviderLlmAgg {
    /// All counters zero.
    pub fn new() -> (r: Self)
        ensures
            r.requests == 0 && r.errors == 0 && r.in_flight == 0 && r.latency_sum_ns == 0
                && r.latency_count == 0,
    {
        ProviderLlmAgg { requests: 0, errors: 0, in_flight: 0, latency_sum_ns: 0, latency_count: 0 }
    }

    /// A request started: one more request and one more in flight.
    pub fn on_request_start(&mut self)
        ensures
            final(self).requests == bump(old(self).requests),
            final(self).in_flight == vstd::wrapping::i64_specs::wrapping_add(old(self).in_flight, 1),
            final(self).errors == old(self).errors,
            final(self).latency_sum_ns == old(self).latency_sum_ns,
            final(self).latency_count == old(self).latency_count,
    {
        self.requests = self.requests.wrapping_add(1);
        self.in_flight = self.in_flight.wrapping_add(1);
    }

    /// A request ended after `elapsed_ns`: errors counted, latency added, one fewer in flight.
    pub fn on_request_end(&mut self, elapsed_ns: u128, is_error: bool)
        ensures
            final(self).requests == old(self).requests,
            final(self).errors == if is_error {
                bump(old(self).errors)
            } else {
                old(self).errors
            },
            final(self).latency_sum_ns == vstd::wrapping::u64_specs::wrapping_add(
                old(self).latency_sum_ns,
                capped_ns(elapsed_ns),
            ),
            final(self).latency_count == bump(old(self).latency_count),
            final(self).in_flight == vstd::wrapping::i64_specs::wrapping_sub(old(self).in_flight, 1),
    {
        if is_error {
            self.errors = self.errors.wrapping_add(1);
        }
        let ns: u64 = if elapsed_ns > u64::MAX as u128 {
            u64::MAX
        } else {
            elapsed_ns as u64
        };
        self.latency_sum_ns = self.latency_sum_ns.wrapping_add(ns);
        self.latency_count = self.latency_count.wrapping_add(1);
        self.in_flight = self.in_flight.wrapping_sub(1);
    }
}

/// A map from provider label to its counters.
pub type ProviderMap = DashMap<String, ProviderLlmAgg>;

/// Name for what a provider map holds: each provider label's characters and its counters.
pub uninterp spec fn provider_aggs(m: ProviderMap) -> Map<Seq<char>, ProviderLlmAgg>;

/// `DashMap::new`: a map that holds nothing.
#[verifier::external_body]
fn new_provider_map() -> (r: ProviderMap)
    ensures
        provider_aggs(r).dom() == Set::<Seq<char>>::empty(),
{
    DashMap::new()
}

/// `DashMap::insert`: stores `a` under `provider`, replacing any earlier counters.
#[verifier::external_body]
fn insert_agg(m: &mut ProviderMap, provider: &str, a: ProviderLlmAgg)
    ensures
        provider_aggs(*final(m)) == provider_aggs(*old(m)).insert(provider@, a),
{
    m.insert(provider.to_string(), a);
}

/// `DashMap::remove`: takes out the counters stored under `provider`, if any.
#[verifier::external_body]
fn remove_agg(m: &mut ProviderMap, provider: &str) -> (r: Option<ProviderLlmAgg>)
    ensures
        provider_aggs(*final(m)) == provider_aggs(*old(m)).remove(provider@),
        match r {
            Some(a) => provider_aggs(*old(m)).dom().contains(provider@) && provider_aggs(*old(m))[provider@] == a,
            None => !provider_aggs(*old(m)).dom().contains(provider@),
        },
{
    m.remove(provider).map(|(_, a)| a)
}

/// `DashMap::get`: a copy of the counters stored under `provider`, if any.
#[verifier::external_body]
fn get_agg(m: &ProviderMap, provider: &str) -> (r: Option<ProviderLlmAgg>)
    ensures
        match r {
            Some(a) => provider_aggs(*m).dom().contains(provider@) && provider_aggs(*m)[provider@] == a,
            None => !provider_aggs(*m).dom().contains(provider@),
        },
{
    m.get(provider).map(|a| *a)
}

/// `DashMap::iter`: every provider label with a copy of its counters, each once; the order is
/// the map's walk, which the contract leaves open.
#[verifier::external_body]
fn agg_entries(m: &ProviderMap) -> (r: Vec<(String, ProviderLlmAgg)>)
    ensures
        keys_distinct(r@) && map_of(r@) == provider_aggs(*m),
{
    m.iter().map(|e| (e.key().clone(), *e.value())).collect()
}

/// Counters by provider label.
pub struct LlmCallMetrics {
    by_provider: ProviderMap,
}

impl LlmCallMetrics {
    /// Counters of each provider seen so far.
    pub closed spec fn view(&self) -> Map<Seq<char>, ProviderLlmAgg> {
        provider_aggs(self.by_provider)
    }

    /// No provider seen.
    pub fn new() -> (r: Self)
        ensures
            r.view() == Map::<Seq<char>, ProviderLlmAgg>::empty(),
    {
        let r = LlmCallMetrics { by_provider: new_provider_map() };
        assert(r.view() =~= Map::<Seq<char>, ProviderLlmAgg>::empty());
        r
    }

    fn take_agg(&mut self, provider: &str) -> (r: ProviderLlmAgg)
        ensures
            final(self).view() == old(self).view().remove(provider@),
            r == if old(self).view().dom().contains(provider@) {
                old(self).view()[provider@]
            } else {
                ProviderLlmAgg { requests: 0, errors: 0, in_flight: 0, latency_sum_ns: 0, latency_count: 0 }
            },
    {
        match remove_agg(&mut self.by_provider, provider) {
            Some(a) => a,
            None => ProviderLlmAgg::new(),
        }
    }

    /// The counters of `provider`, or all-zero counters for a provider not seen yet.
    pub open spec fn agg_of(&self, provider: Seq<char>) -> ProviderLlmAgg {
        if self.view().dom().contains(provider) {
            self.view()[provider]
        } else {
            ProviderLlmAgg { requests: 0, errors: 0, in_flight: 0, latency_sum_ns: 0, latency_count: 0 }
        }
    }

    /// Counts a started request for `provider`.
    pub fn on_request_start(&mut self, provider: &str)
        ensures
            final(self).view().dom() == old(self).view().dom().insert(provider@),
            forall|p: Seq<char>| p != provider@ ==> #[trigger] final(self).agg_of(p) == old(self).agg_of(p),
            ({
                let (o, n) = (old(self).agg_of(provider@), final(self).agg_of(provider@));
                &&& n.requests == bump(o.requests)
                &&& n.in_flight == vstd::wrapping::i64_specs::wrapping_add(o.in_flight, 1)
                &&& n.errors == o.errors
                &&& n.latency_sum_ns == o.latency_sum_ns
                &&& n.latency_count == o.latency_count
            }),
    {
        let mut a = self.take_agg(provider);
        a.on_request_start();
        insert_agg(&mut self.by_provider, provider, a);
        assert(self.view().dom() =~= old(self).view().dom().insert(provider@));
    }

    /// Counts a finished request for `provider` that took `elapsed_ns`.
    pub fn on_request_end(&mut self, provider: &str, elapsed_ns: u128, is_error: bool)
        ensures
            final(self).view().dom() == old(self).view().dom().insert(provider@),
            forall|p: Seq<char>| p != provider@ ==> #[trigger] final(self).agg_of(p) == old(self).agg_of(p),
            ({
                let (o, n) = (old(self).agg_of(provider@), final(self).agg_of(provider@));
                &&& n.requests == o.requests
                &&& n.errors == if is_error { bump(o.errors) } else { o.errors }
                &&& n.latency_sum_ns == vstd::wrapping::u64_specs::wrapping_add(
                    o.latency_sum_ns,
                    capped_ns(elapsed_ns),
                )
                &&& n.latency_count == bump(o.latency_count)
                &&& n.in_flight == vstd::wrapping::i64_specs::wrapping_sub(o.in_flight, 1)
            }),
    {
        let mut a = self.take_agg(provider);
        a.on_request_end(elapsed_ns, is_error);
        insert_agg(&mut self.by_provider, provider, a);
        assert(self.view().dom() =~= old(self).view().dom().insert(provider@));
    }

    /// The counters of every provider seen, one entry per provider (in an order the contract
    /// leaves open).
    pub fn provider_counters(&self) -> (r: Vec<(String, ProviderLlmAgg)>)
        ensures
            keys_distinct(r@),
            map_of(r@) == self.view(),
    {
        agg_entries(&self.by_provider)
    }

    /// The counters of `provider`, if it was seen.
    pub fn get(&self, provider: &str) -> (r: Option<ProviderLlmAgg>)
        ensures
            r == if self.view().dom().contains(provider@) {
                Some(self.view()[provider@])
            } else {
                None::<ProviderLlmAgg>
            },
    {
        get_agg(&self.by_provider, provider)
    }
}

// ---------------------------------------------------------------------------
// Prometheus label values
// ---------------------------------------------------------------------------

/// How one character of a provider name appears in a label value.
pub open spec fn escape_char(c: char) -> Seq<char> {
    if c == '\\' {
        "\\\\"@
    } else if c == '"' {
        "\\\""@
    } else if c == '\n' || c == '\r' {
        "_"@
    } else if ('a' <= c && c <= 'z') || ('A' <= c && c <= 'Z') || ('0' <= c && c <= '9') || c
        == '_' || c == '.' || c == '-' {
        seq![c]
    } else {
        "_"@
    }
}

/// A provider name with every character escaped.
pub open spec fn escaped_label(s: Seq<char>) -> Seq<char>
    decreases s.len(),
{
    if s.len() == 0 {
        seq![]
    } else {
        escaped_label(s.drop_last()) + escape_char(s.last())
    }
}

/// Escapes a provider name for use as a Prometheus label value: backslashes and quotes are
/// escaped, line breaks and every character other than ASCII letters, digits, `_`, `.`
/// and `-` become `_`.
pub fn escape_label(s: &str) -> (r: String)
    ensures
        r@ == escaped_label(s@),
{
    let v = str_chars(s);
    let mut out: Vec<char> = Vec::new();
    let mut i: usize = 0;
    while i < v.len()
        invariant
            i <= v@.len(),
            v@ == s@,
            out@ == escaped_label(v@.take(i as int)),
        decreases v.len() - i,
    {
        let c = v[i];
        proof {
            assert(v@.take(i + 1).drop_last() =~= v@.take(i as int));
        }
        if c == '\\' {
            append_str(&mut out, "\\\\");
        } else if c == '"' {
            append_str(&mut out, "\\\"");
        } else if c == '\n' || c == '\r' {
            append_str(&mut out, "_");
        } else if ('a' <= c && c <= 'z') || ('A' <= c && c <= 'Z') || ('0' <= c && c <= '9') || c
            == '_' || c == '.' || c == '-' {
            out.push(c);
            assert(out@ =~= escaped_label(v@.take(i as int)) + seq![c]);
        } else {
            append_str(&mut out, "_");
        }
        i = i + 1;
    }
    assert(v@.take(v@.len() as int) =~= v@);
    chars_to_string(out.as_slice())
}

// ---------------------------------------------------------------------------
// Prometheus text
// ---------------------------------------------------------------------------

/// The help and type lines that open the Prometheus text.
pub const PROMETHEUS_HEADER: &'static str = "# HELP llm_requests_total Total LLM HTTP requests started.\n# TYPE llm_requests_total counter\n# HELP llm_errors_total Total LLM HTTP requests that ended in error.\n# TYPE llm_errors_total counter\n# HELP llm_in_flight In-flight LLM HTTP requests.\n# TYPE llm_in_flight gauge\n# HELP llm_latency_seconds_sum Sum of LLM request wall times (seconds).\n# TYPE llm_latency_seconds_sum counter\n# HELP llm_latency_seconds_count LLM requests with recorded latency.\n# TYPE llm_latency_seconds_count counter\n";

/// One provider's counters for the Prometheus text, with the latency sum already written in
/// seconds.
pub struct PrometheusRow {
    pub provider: String,
    pub counters: ProviderLlmAgg,
    pub latency_seconds_sum: String,
}

/// One sample line: `name{provider="label"} value`.
pub open spec fn sample_line(name: Seq<char>, label: Seq<char>, value: Seq<char>) -> Seq<char> {
    name + "{provider=\""@ + label + "\"} "@ + value + "\n"@
}

/// The five sample lines of one provider.
pub open spec fn row_text(provider: Seq<char>, a: ProviderLlmAgg, latency_sum: Seq<char>) -> Seq<char> {
    let l = escaped_label(provider);
    sample_line("llm_requests_total"@, l, decimal(a.requests as nat)) + sample_line(
        "llm_errors_total"@,
        l,
        decimal(a.errors as nat),
    ) + sample_line("llm_in_flight"@, l, signed_decimal(a.in_flight as int)) + sample_line(
        "llm_latency_seconds_sum"@,
        l,
        latency_sum,
    ) + sample_line("llm_latency_seconds_count"@, l, decimal(a.latency_count as nat))
}

/// The sample lines of all rows, in order.
pub open spec fn rows_text(rows: Seq<PrometheusRow>) -> Seq<char>
    decreases rows.len(),
{
    if rows.len() == 0 {
        seq![]
    } else {
        rows_text(rows.drop_last()) + row_text(
            rows.last().provider@,
            rows.last().counters,
            rows.last().latency_seconds_sum@,
        )
    }
}

fn push_sample(out: &mut Vec<char>, name: &str, label: &[char], value: &[char])
    ensures
        final(out)@ == old(out)@ + sample_line(name@, label@, value@),
{
    append_str(out, name);
    append_str(out, "{provider=\"");
    append_chars(out, label);
    append_str(out, "\"} ");
    append_chars(out, value);
    append_str(out, "\n");
}

/// The Prometheus text of the given rows: the help and type lines, five sample lines per
/// provider, and a closing blank line.
pub fn prometheus_text(rows: &[PrometheusRow]) -> (r: String)
    ensures
        r@ == PROMETHEUS_HEADER@ + rows_text(rows@) + "\n"@,
{
    let mut out = str_chars(PROMETHEUS_HEADER);
    let mut i: usize = 0;
    while i < rows.len()
        invariant
            i <= rows@.len(),
            out@ == PROMETHEUS_HEADER@ + rows_text(rows@.take(i as int)),
        decreases rows.len() - i,
    {
        let row = &rows[i];
        let l = escape_label(row.provider.as_str());
        let label = str_chars(l.as_str());
        let ghost before = out@;
        push_sample(&mut out, "llm_requests_total", label.as_slice(), u64_decimal(row.counters.requests).as_slice());
        push_sample(&mut out, "llm_errors_total", label.as_slice(), u64_decimal(row.counters.errors).as_slice());
        push_sample(&mut out, "llm_in_flight", label.as_slice(), i64_decimal(row.counters.in_flight).as_slice());
        push_sample(&mut out, "llm_latency_seconds_sum", label.as_slice(), str_chars(row.latency_seconds_sum.as_str()).as_slice());
        push_sample(&mut out, "llm_latency_seconds_count", label.as_slice(), u64_decimal(row.counters.latency_count).as_slice());
        proof {
            assert(rows@.take(i + 1).drop_last() =~= rows@.take(i as int));
            assert(out@ =~= before + row_text(row.provider@, row.counters, row.latency_seconds_sum@));
        }
        i = i + 1;
    }
    assert(rows@.take(rows@.len() as int) =~= rows@);
    append_str(&mut out, "\n");
    chars_to_string(out.as_slice())
}

} // verus!
