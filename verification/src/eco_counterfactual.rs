//! Counterfactual compression receipts: what the applied input compression saved against no
//! compression, and what the recommended mode or the balanced mode would have given.

use vstd::prelude::*;
use crate::compression::{compress_text, compressed_text, config_mode, CompressionMode};
use crate::eco_mode::{normalize_efficient_mode, normalized_mode};
use crate::text::{eq_str, lowercase_chars, owned, str_chars};

verus! {

/// The lowercase label of a mode.
pub open spec fn mode_label_text(m: CompressionMode) -> Seq<char> {
    match m {
        CompressionMode::Off => "off"@,
        CompressionMode::Balanced => "balanced"@,
        CompressionMode::Aggressive => "aggressive"@,
    }
}

/// The lowercase label of a mode.
pub fn mode_label(m: CompressionMode) -> (r: &'static str)
    ensures
        r@ == mode_label_text(m),
{
    match m {
        CompressionMode::Off => "off",
        CompressionMode::Balanced => "balanced",
        CompressionMode::Aggressive => "aggressive",
    }
}

/// `EfficientMode::parse_config` of a setting.
pub fn parse_config_mode(s: &str) -> (r: CompressionMode)
    ensures
        r == config_mode(s@),
{
    let l = lowercase_chars(str_chars(s).as_slice());
    if eq_str(l.as_slice(), "balanced") || eq_str(l.as_slice(), "adaptive") {
        CompressionMode::Balanced
    } else if eq_str(l.as_slice(), "aggressive") {
        CompressionMode::Aggressive
    } else {
        CompressionMode::Off
    }
}

/// The compressor's token estimate of a text: its UTF-8 length / 4, plus one.
pub open spec fn tok_of(s: Seq<char>) -> int {
    (vstd::utf8::encode_utf8(s).len() as usize) / 4 + 1
}

/// Token estimates of `text` and of its compression in `mode`.
pub fn compress_counts(text: &str, mode: CompressionMode) -> (r: (u64, u64))
    ensures
        r.0 == tok_of(text@),
        r.1 == tok_of(compressed_text(text@, mode)),
{
    let t = compress_text(text, mode);
    let a = text.len() / 4 + 1;
    let b = t.as_str().len() / 4 + 1;
    (a as u64, b as u64)
}

/// Token counts of the compression that was applied.
#[derive(Debug, Clone, Copy, PartialEq, Eq, Structural)]
pub struct AppliedCompression {
    pub original_tokens: u64,
    pub compressed_tokens: u64,
}

/// Tokens a compression saved (none when it grew).
pub open spec fn saved(orig: u64, comp: u64) -> int {
    if orig >= comp {
        orig - comp
    } else {
        0
    }
}

/// The adaptive policy's modes for the turn.
pub struct AdaptiveModes {
    pub effective_mode: String,
    pub recommended_mode: String,
}

/// A counterfactual receipt.
pub struct EcoCounterfactualReceipt {
    pub applied_mode: String,
    pub original_tokens_est: u64,
    pub applied_compressed_tokens_est: u64,
    pub vs_off_tokens_saved: u64,
    pub vs_off_savings_pct: u8,
    pub recommended_mode: Option<String>,
    pub recommended_compressed_tokens_est: Option<u64>,
    pub tokens_saved_delta_recommended_minus_applied: Option<i64>,
    pub balanced_compressed_tokens_est: Option<u64>,
    pub aggressive_extra_tokens_saved_vs_balanced: Option<u64>,
}

/// The balanced comparison is made when the effective mode is aggressive, or, without
/// adaptive metadata, when the applied mode is.
pub open spec fn wants_balanced(applied_mode: CompressionMode, adaptive: Option<(Seq<char>, Seq<char>)>) -> bool {
    match adaptive {
        Some(a) => normalized_mode(a.0) == "aggressive"@,
        None => applied_mode == CompressionMode::Aggressive,
    }
}

/// The recommended mode is compared when it normalizes differently from the effective one.
pub open spec fn wants_recommended(adaptive: Option<(Seq<char>, Seq<char>)>) -> bool {
    match adaptive {
        Some(a) => normalized_mode(a.1) != normalized_mode(a.0),
        None => false,
    }
}

/// The receipt matches the turn.
pub open spec fn receipt_ok(
    user: Seq<char>,
    applied_mode: CompressionMode,
    applied: AppliedCompression,
    savings_pct: u8,
    adaptive: Option<(Seq<char>, Seq<char>)>,
    r: EcoCounterfactualReceipt,
) -> bool {
    &&& r.applied_mode@ == mode_label_text(applied_mode)
    &&& r.original_tokens_est == applied.original_tokens
    &&& r.applied_compressed_tokens_est == applied.compressed_tokens
    &&& r.vs_off_tokens_saved == saved(applied.original_tokens, applied.compressed_tokens)
    &&& r.vs_off_savings_pct == savings_pct
    &&& if wants_recommended(adaptive) {
        let rec = match adaptive {
            Some(a) => a.1,
            None => Seq::<char>::empty(),
        };
        let rm = config_mode(rec);
        let c_orig = tok_of(user);
        let c_comp = tok_of(compressed_text(user, rm));
        &&& match r.recommended_mode {
            Some(m) => m@ == rec,
            None => false,
        }
        &&& r.recommended_compressed_tokens_est == Some(c_comp as u64)
        &&& r.tokens_saved_delta_recommended_minus_applied == Some(
            (saved(c_orig as u64, c_comp as u64) - saved(applied.original_tokens, applied.compressed_tokens)) as i64,
        )
    } else {
        &&& r.recommended_mode is None
        &&& r.recommended_compressed_tokens_est is None
        &&& r.tokens_saved_delta_recommended_minus_applied is None
    }
    &&& if wants_balanced(applied_mode, adaptive) {
        let b = tok_of(compressed_text(user, CompressionMode::Balanced));
        &&& r.balanced_compressed_tokens_est == Some(b as u64)
        &&& r.aggressive_extra_tokens_saved_vs_balanced == Some(saved(b as u64, applied.compressed_tokens) as u64)
    } else {
        &&& r.balanced_compressed_tokens_est is None
        &&& r.aggressive_extra_tokens_saved_vs_balanced is None
    }
}

/// The receipt comparing the applied compression with no compression and, where the policy
/// calls for it, with the recommended and the balanced modes; none when compression was off
/// and there is no adaptive metadata.
pub fn build_eco_counterfactual_receipt(
    user_message: &str,
    applied_mode: CompressionMode,
    applied: AppliedCompression,
    savings_pct: u8,
    adaptive: Option<&AdaptiveModes>,
) -> (r: Option<EcoCounterfactualReceipt>)
    requires
        applied.original_tokens <= i64::MAX,
    ensures
        ({
            let av = match adaptive {
                Some(a) => Some((a.effective_mode@, a.recommended_mode@)),
                None => None,
            };
            match r {
                None => applied_mode == CompressionMode::Off && adaptive is None,
                Some(rc) => !(applied_mode == CompressionMode::Off && adaptive is None)
                    && receipt_ok(user_message@, applied_mode, applied, savings_pct, av, rc),
            }
        }),
{
    if applied_mode == CompressionMode::Off && adaptive.is_none() {
        return None;
    }
    let vs_off: u64 = if applied.original_tokens >= applied.compressed_tokens {
        applied.original_tokens - applied.compressed_tokens
    } else {
        0
    };
    let mut receipt = EcoCounterfactualReceipt {
        applied_mode: owned(mode_label(applied_mode)),
        original_tokens_est: applied.original_tokens,
        applied_compressed_tokens_est: applied.compressed_tokens,
        vs_off_tokens_saved: vs_off,
        vs_off_savings_pct: savings_pct,
        recommended_mode: None,
        recommended_compressed_tokens_est: None,
        tokens_saved_delta_recommended_minus_applied: None,
        balanced_compressed_tokens_est: None,
        aggressive_extra_tokens_saved_vs_balanced: None,
    };
    let want_balanced = match adaptive {
        Some(snap) => {
            let eff = normalize_efficient_mode(snap.effective_mode.as_str());
            let recm = normalize_efficient_mode(snap.recommended_mode.as_str());
            let differ = !eq_str(str_chars(recm).as_slice(), eff);
            if differ {
                let rm = parse_config_mode(snap.recommended_mode.as_str());
                let (c_orig, c_comp) = compress_counts(user_message, rm);
                let rec_saved: u64 = if c_orig >= c_comp {
                    c_orig - c_comp
                } else {
                    0
                };
                assert(c_orig <= usize::MAX / 4 + 1);
                receipt.recommended_mode = Some(snap.recommended_mode.clone());
                receipt.recommended_compressed_tokens_est = Some(c_comp);
                let delta = rec_saved as i128 - vs_off as i128;
                receipt.tokens_saved_delta_recommended_minus_applied = Some(delta as i64);
            }
            eq_str(str_chars(eff).as_slice(), "aggressive")
        },
        None => applied_mode == CompressionMode::Aggressive,
    };
    if want_balanced {
        let (_, b) = compress_counts(user_message, CompressionMode::Balanced);
        receipt.balanced_compressed_tokens_est = Some(b);
        let extra: u64 = if b >= applied.compressed_tokens {
            b - applied.compressed_tokens
        } else {
            0
        };
        receipt.aggressive_extra_tokens_saved_vs_balanced = Some(extra);
    }
    Some(receipt)
}

} // verus!
