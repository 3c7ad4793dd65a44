use openfang_runtime::compression::CompressionMode;
use openfang_runtime::eco_counterfactual::{
    build_eco_counterfactual_receipt, compress_counts, mode_label, parse_config_mode,
    AdaptiveModes, AppliedCompression,
};

const MSG: &str = "short question about tokio";

#[test]
fn no_receipt_without_compression_or_policy() {
    let applied = AppliedCompression { original_tokens: 7, compressed_tokens: 7 };
    assert!(build_eco_counterfactual_receipt(MSG, CompressionMode::Off, applied, 0, None).is_none());
}

#[test]
fn balanced_receipt_without_policy_has_no_comparisons() {
    let applied = AppliedCompression { original_tokens: 100, compressed_tokens: 60 };
    let r = build_eco_counterfactual_receipt(MSG, CompressionMode::Balanced, applied, 40, None).unwrap();
    assert_eq!(r.applied_mode, "balanced");
    assert_eq!(r.vs_off_tokens_saved, 40);
    assert_eq!(r.vs_off_savings_pct, 40);
    assert!(r.recommended_mode.is_none());
    assert!(r.balanced_compressed_tokens_est.is_none());
}

#[test]
fn aggressive_receipt_compares_with_balanced() {
    let (orig, comp) = compress_counts(MSG, CompressionMode::Balanced);
    // Short texts pass through the compressor unchanged.
    assert_eq!(orig, comp);
    assert_eq!(orig, (MSG.len() / 4 + 1) as u64);
    let applied = AppliedCompression { original_tokens: orig, compressed_tokens: 2 };
    let r = build_eco_counterfactual_receipt(MSG, CompressionMode::Aggressive, applied, 10, None).unwrap();
    assert_eq!(r.balanced_compressed_tokens_est, Some(comp));
    assert_eq!(r.aggressive_extra_tokens_saved_vs_balanced, Some(comp - 2));
}

#[test]
fn policy_recommendation_is_compared_when_it_differs() {
    let applied = AppliedCompression { original_tokens: 7, compressed_tokens: 7 };
    let snap = AdaptiveModes { effective_mode: "balanced".to_string(), recommended_mode: "Aggressive".to_string() };
    let r = build_eco_counterfactual_receipt(MSG, CompressionMode::Balanced, applied, 0, Some(&snap)).unwrap();
    assert_eq!(r.recommended_mode.as_deref(), Some("Aggressive"));
    assert_eq!(r.recommended_compressed_tokens_est, Some((MSG.len() / 4 + 1) as u64));
    assert_eq!(r.tokens_saved_delta_recommended_minus_applied, Some(0));
    assert!(r.balanced_compressed_tokens_est.is_none());

    let same = AdaptiveModes { effective_mode: "aggressive".to_string(), recommended_mode: "aggressive".to_string() };
    let r2 = build_eco_counterfactual_receipt(MSG, CompressionMode::Off, applied, 0, Some(&same)).unwrap();
    assert!(r2.recommended_mode.is_none());
    assert!(r2.balanced_compressed_tokens_est.is_some());
}

#[test]
fn mode_labels_and_config_parsing() {
    assert_eq!(mode_label(CompressionMode::Aggressive), "aggressive");
    assert_eq!(parse_config_mode("ADAPTIVE"), CompressionMode::Balanced);
    assert_eq!(parse_config_mode("unknown"), CompressionMode::Off);
}
