//! The calls this library makes into `ainl_compression`, with what each is known to do,
//! and the response-side compression of assistant text built on them.

use vstd::prelude::*;
use crate::text::{
    ascii_lower, contains, str_chars, trim, trim_range, unicode_lower, chars_to_string, sub_vec,
};

verus! {

/// Input compression aggressiveness (the modes of `ainl_compression::EfficientMode`).
#[derive(Debug, Clone, Copy, PartialEq, Eq, Structural)]
pub enum CompressionMode {
    Off,
    Balanced,
    Aggressive,
}

/// `len / 4 + 1` tokens for a text of `len` UTF-8 bytes.
pub open spec fn token_estimate(byte_len: nat) -> nat {
    byte_len / 4 + 1
}

// ---------------------------------------------------------------------------
// Mode parsing
// ---------------------------------------------------------------------------

/// `EfficientMode::parse_config`: `balanced`/`adaptive`, `aggressive`, anything else off
/// (compared after Unicode lowercasing).
pub open spec fn config_mode(s: Seq<char>) -> CompressionMode {
    let l = unicode_lower(s);
    if l == "balanced"@ || l == "adaptive"@ {
        CompressionMode::Balanced
    } else if l == "aggressive"@ {
        CompressionMode::Aggressive
    } else {
        CompressionMode::Off
    }
}

/// `EfficientMode::parse_natural_language`: phrase checks on the ASCII-lowercased text,
/// off-phrases first, then aggressive, then balanced, then the config vocabulary.
pub open spec fn natural_language_mode(s: Seq<char>) -> CompressionMode {
    let lo = ascii_lower(s);
    if contains(lo, "disable compression"@) || contains(lo, "no compression"@) || contains(
        lo,
        "compression off"@,
    ) || contains(lo, "eco off"@) || contains(lo, "turn off eco"@) || contains(lo, "off mode"@) {
        CompressionMode::Off
    } else if contains(lo, "aggressive"@) || contains(lo, "max savings"@) || contains(
        lo,
        "highest savings"@,
    ) || contains(lo, "ultra eco"@) || contains(lo, "eco aggressive"@) {
        CompressionMode::Aggressive
    } else if contains(lo, "balanced"@) || contains(lo, "default eco"@) || contains(
        lo,
        "eco balanced"@,
    ) || contains(lo, "enable eco"@) || contains(lo, "compression on"@) {
        CompressionMode::Balanced
    } else {
        config_mode(lo)
    }
}

/// Calls `ainl_compression::EfficientMode::parse_natural_language`; the contract restates the
/// phrase table of that function's source.
#[verifier::external_body]
fn parse_natural_language_mode(s: &str) -> (r: CompressionMode)
    ensures
        r == natural_language_mode(s@),
{
    match ainl_compression::EfficientMode::parse_natural_language(s) {
        ainl_compression::EfficientMode::Off => CompressionMode::Off,
        ainl_compression::EfficientMode::Balanced => CompressionMode::Balanced,
        ainl_compression::EfficientMode::Aggressive => CompressionMode::Aggressive,
    }
}

// ---------------------------------------------------------------------------
// Compression of a text
// ---------------------------------------------------------------------------

/// Name for the text `ainl_compression::compress(text, mode)` produces.
pub uninterp spec fn compressed_text(text: Seq<char>, mode: CompressionMode) -> Seq<char>;

/// Calls `ainl_compression::compress` and keeps the text. As its source shows, off mode and
/// texts under 80 estimated tokens pass through unchanged; otherwise the result is only named.
#[verifier::external_body]
pub(crate) fn compress_text(text: &str, mode: CompressionMode) -> (r: String)
    ensures
        r@ == compressed_text(text@, mode),
        mode == CompressionMode::Off || token_estimate(text.len() as nat) < 80 ==> r@ == text@,
{
    let m = match mode {
        CompressionMode::Off => ainl_compression::EfficientMode::Off,
        CompressionMode::Balanced => ainl_compression::EfficientMode::Balanced,
        CompressionMode::Aggressive => ainl_compression::EfficientMode::Aggressive,
    };
    ainl_compression::compress(text, m).text
}

/// The compressed text for a text that is compressed at all: the text unchanged in off mode
/// or when the mode setting is off, otherwise what the compressor gives.
pub open spec fn output_compressed(text: Seq<char>, enabled: bool, mode_setting: Option<Seq<char>>) -> Seq<char> {
    let mode = match mode_setting {
        Some(m) => natural_language_mode(trim(m)),
        None => CompressionMode::Balanced,
    };
    if !enabled || trim(text).len() == 0 || mode == CompressionMode::Off {
        text
    } else {
        compressed_text(text, mode)
    }
}

/// Output compression, when on and given no mode, compresses a non-blank text in balanced
/// mode (the documented default); when off, or for a blank text, the text comes back
/// unchanged whatever the mode setting; an explicit mode is read as natural language.
pub proof fn law_output_compression_defaults_to_balanced(
    text: Seq<char>,
    mode_setting: Option<Seq<char>>,
    m: Seq<char>,
)
    ensures
        trim(text).len() > 0 ==> output_compressed(text, true, None) == compressed_text(
            text,
            CompressionMode::Balanced,
        ),
        output_compressed(text, false, mode_setting) == text,
        trim(text).len() == 0 ==> output_compressed(text, true, mode_setting) == text,
        trim(text).len() > 0 && natural_language_mode(trim(m)) != CompressionMode::Off
            ==> output_compressed(text, true, Some(m)) == compressed_text(
            text,
            natural_language_mode(trim(m)),
        ),
{
}

/// Response-side compression of assistant text. `enabled` is whether `AINL_OUTPUT_COMPRESSION`
/// is truthy, `mode_setting` the value of `AINL_OUTPUT_COMPRESSION_MODE` if set (default
/// balanced). Empty or whitespace-only text is returned unchanged.
pub fn apply_if_env(text: String, enabled: bool, mode_setting: Option<&str>) -> (r: String)
    ensures
        enabled && mode_setting is None && trim(text@).len() > 0 ==> r@ == compressed_text(
            text@,
            CompressionMode::Balanced,
        ),
        r@ == output_compressed(
            text@,
            enabled,
            match mode_setting {
                Some(m) => Some(m@),
                None => None,
            },
        ),
{
    if !enabled {
        return text;
    }
    let v = str_chars(text.as_str());
    let (a, b) = trim_range(v.as_slice(), 0, v.len());
    assert(v@.subrange(0, v@.len() as int) =~= v@);
    if a == b {
        return text;
    }
    let mode = match mode_setting {
        Some(m) => {
            let mv = str_chars(m);
            let (c, d) = trim_range(mv.as_slice(), 0, mv.len());
            assert(mv@.subrange(0, mv@.len() as int) =~= mv@);
            let t = chars_to_string(sub_vec(mv.as_slice(), c, d).as_slice());
            parse_natural_language_mode(t.as_str())
        },
        None => CompressionMode::Balanced,
    };
    if mode == CompressionMode::Off {
        return text;
    }
    compress_text(text.as_str(), mode)
}

/// `AINL_*` switches: `1`, `true`, `yes` or `on` after trimming and ASCII lowercasing.
pub open spec fn truthy(v: Seq<char>) -> bool {
    let s = ascii_lower(trim(v));
    s == "1"@ || s == "true"@ || s == "yes"@ || s == "on"@
}

/// Whether an environment switch with this value (if set) is on.
pub fn env_flag_enabled(value: Option<&str>) -> (r: bool)
    ensures
        r == match value {
            Some(v) => truthy(v@),
            None => false,
        },
{
    match value {
        Some(v) => {
            let cv = str_chars(v);
            let (a, b) = trim_range(cv.as_slice(), 0, cv.len());
            assert(cv@.subrange(0, cv@.len() as int) =~= cv@);
            let t = sub_vec(cv.as_slice(), a, b);
            let l = crate::text::lower_chars(t.as_slice());
            let s = l.as_slice();
            crate::text::eq_str(s, "1") || crate::text::eq_str(s, "true") || crate::text::eq_str(
                s,
                "yes",
            ) || crate::text::eq_str(s, "on")
        },
        None => false,
    }
}

// ---------------------------------------------------------------------------
// Adaptive recommendation, profiles, cache TTL
// ---------------------------------------------------------------------------

/// Name for `ainl_compression::recommend_mode_for_content`: the recommended tier (off 0,
/// balanced 1, aggressive 2) and the reason codes.
pub uninterp spec fn content_recommendation(text: Seq<char>) -> (u8, Seq<Seq<char>>);

/// Calls `ainl_compression::recommend_mode_for_content`, keeping the mode (as a tier) and
/// the reasons; its floating-point confidence is not kept. As its source shows: one reason,
/// a tier of at most 2, and off with `below_compression_floor` under 80 estimated tokens.
#[verifier::external_body]
pub(crate) fn recommend_for_content(text: &str) -> (r: (u8, Vec<String>))
    ensures
        r.0 == content_recommendation(text@).0,
        crate::text::string_views(r.1@) == content_recommendation(text@).1,
        r.0 <= 2,
        r.1@.len() == 1,
        token_estimate(text.len() as nat) < 80 ==> r.0 == 0 && r.1@[0]@ == "below_compression_floor"@,
{
    let rec = ainl_compression::recommend_mode_for_content(text);
    let tier = match rec.mode {
        ainl_compression::EfficientMode::Off => 0u8,
        ainl_compression::EfficientMode::Balanced => 1u8,
        ainl_compression::EfficientMode::Aggressive => 2u8,
    };
    (tier, rec.reasons.iter().map(|r| r.to_string()).collect())
}

/// `suggest_profile_id_for_project`: quality-preserving for production-like projects,
/// cost-sensitive for batch-like ones, default otherwise.
pub open spec fn suggested_profile(project_id: Seq<char>) -> Seq<char> {
    let p = ascii_lower(project_id);
    if contains(p, "prod"@) || contains(p, "customer"@) || contains(p, "staging"@) || contains(
        p,
        "release"@,
    ) {
        "quality_preserve"@
    } else if contains(p, "batch"@) || contains(p, "ci"@) || contains(p, "cron"@) || contains(
        p,
        "scaled"@,
    ) {
        "cost_sensitive"@
    } else {
        "default"@
    }
}

/// Calls `ainl_compression::suggest_profile_id_for_project`; the contract restates its
/// substring rules.
#[verifier::external_body]
pub(crate) fn suggest_profile_id(project_id: &str) -> (r: String)
    ensures
        r@ == suggested_profile(project_id@),
{
    ainl_compression::suggest_profile_id_for_project(project_id).to_string()
}

/// `effective_ttl_with_hysteresis(base, hits).effective_ttl_secs`: +10% of the base per hit
/// for up to ten hits, at most twice the base and at most a day (saturating products).
pub open spec fn stretched_ttl(base_ttl_secs: u64, hits: u32) -> u64 {
    let base: int = if base_ttl_secs == 0 {
        1
    } else {
        base_ttl_secs as int
    };
    let h: int = if hits > 10 {
        10
    } else {
        hits as int
    };
    let prod: int = if base * (100 + h * 10) > u64::MAX {
        u64::MAX as int
    } else {
        base * (100 + h * 10)
    };
    let stretched = prod / 100;
    let double: int = if base * 2 > u64::MAX {
        u64::MAX as int
    } else {
        base * 2
    };
    let capped = if stretched < double {
        stretched
    } else {
        double
    };
    (if capped < 86400 {
        capped
    } else {
        86400
    }) as u64
}

/// Calls `ainl_compression::effective_ttl_with_hysteresis` and keeps the effective TTL; the
/// contract restates its integer formula.
#[verifier::external_body]
pub(crate) fn effective_ttl(base_ttl_secs: u64, consecutive_hits: u32) -> (r: u64)
    ensures
        r == stretched_ttl(base_ttl_secs, consecutive_hits),
{
    ainl_compression::effective_ttl_with_hysteresis(base_ttl_secs, consecutive_hits).effective_ttl_secs
}

} // verus!
