use openfang_runtime::eco_mode::{
    cache_capability_label, compression_tier_rank, normalize_efficient_mode,
    prompt_cache_capability_label, step_down_efficient_mode,
};

#[test]
fn tier_rank_and_cache_labels_sanity() {
    assert_eq!(compression_tier_rank("off"), 0);
    assert_eq!(compression_tier_rank("balanced"), 1);
    assert_eq!(compression_tier_rank("aggressive"), 2);
    assert!(prompt_cache_capability_label("explicit_prompt_cache"));
    assert!(!prompt_cache_capability_label("none_local"));
}

#[test]
fn normalize_efficient_mode_variants() {
    assert_eq!(normalize_efficient_mode("  AGGRESSIVE "), "aggressive");
    assert_eq!(normalize_efficient_mode("Balanced"), "balanced");
    assert_eq!(normalize_efficient_mode(""), "off");
    assert_eq!(normalize_efficient_mode("off"), "off");
    assert_eq!(normalize_efficient_mode("something"), "balanced");
}

#[test]
fn cache_capability_labels() {
    assert_eq!(cache_capability_label(" Anthropic "), "explicit_prompt_cache");
    assert_eq!(cache_capability_label("openai"), "implicit_automatic");
    assert_eq!(cache_capability_label("gemini"), "limited_or_none");
    assert_eq!(cache_capability_label("ollama"), "none_local");
    assert_eq!(cache_capability_label("openrouter"), "routed_provider_dependent");
    assert_eq!(cache_capability_label("mystery"), "unknown");
}

#[test]
fn step_down_tiers() {
    assert_eq!(step_down_efficient_mode("aggressive"), "balanced");
    assert_eq!(step_down_efficient_mode("balanced"), "off");
    assert_eq!(step_down_efficient_mode("off"), "off");
}

use openfang_runtime::eco_mode::{
    circuit_breaker_adjust_base, plan_adaptive_eco_turn, resolve_adaptive_eco_turn,
    structured_payload_heavy, CacheStreaks, CircuitBreakerConfig, EcoHysteresis, EcoTurnInput,
};

fn input_with(mode: &str, provider: &str, model: &str) -> EcoTurnInput {
    EcoTurnInput {
        provider: provider.to_string(),
        model: model.to_string(),
        agent_name: "agent".to_string(),
        efficient_mode: Some(mode.to_string()),
        project_id: None,
        price_code: None,
        adaptive_compression: false,
        enforce: false,
        allow_aggressive_on_structured: false,
        provider_prompt_cache_ttl_secs: 300,
    }
}

#[test]
fn shadow_keeps_base_mode() {
    let mut streaks = CacheStreaks::new();
    let input = input_with("balanced", "openrouter", "sonnet-4-20250514");
    let snap = resolve_adaptive_eco_turn(&input, "plain short", &mut streaks);
    assert_eq!(snap.effective_mode, "balanced");
    assert!(snap.shadow_only);
    assert!(snap.reason_codes.iter().any(|s| s.contains("shadow_only")));
    assert!(snap.reason_codes.iter().any(|s| s.contains("adaptive_eco:")));
    assert_eq!(snap.cache_capability, "routed_provider_dependent");
    assert!(snap.content_recommendation.is_none());
}

#[test]
fn circuit_breaker_steps_down_when_semantics_bad() {
    let cfg = CircuitBreakerConfig { enabled: true, window: 8, min_below_floor: 2 };
    // scores 0.5 and 0.4 against a floor of 0.9: both below
    let below = vec![true, true];
    let (m, trip) = circuit_breaker_adjust_base("aggressive", &cfg, &below);
    assert_eq!(m, "balanced");
    assert!(trip);
}

#[test]
fn circuit_breaker_needs_enough_recent_failures() {
    let cfg = CircuitBreakerConfig { enabled: true, window: 1, min_below_floor: 2 };
    let (m, trip) = circuit_breaker_adjust_base("aggressive", &cfg, &[true, true]);
    assert_eq!(m, "aggressive");
    assert!(!trip);
    let off = CircuitBreakerConfig { enabled: false, window: 8, min_below_floor: 1 };
    assert_eq!(circuit_breaker_adjust_base("aggressive", &off, &[true]).0, "aggressive");
    let on = CircuitBreakerConfig { enabled: true, window: 8, min_below_floor: 1 };
    assert_eq!(circuit_breaker_adjust_base("off", &on, &[true]), ("off".to_string(), false));
}

#[test]
fn hysteresis_requires_streak() {
    let mut map = EcoHysteresis::new();
    let id = "7f0b4a56-1d5e-4e8c-9a63-3b0c0d2f1e11";
    let (m1, b1) = map.hysteresis_resolve_adaptive_effective(id, "balanced", "off", 2);
    assert_eq!(m1, "balanced");
    assert!(b1);
    let (m2, b2) = map.hysteresis_resolve_adaptive_effective(id, "balanced", "off", 2);
    assert_eq!(m2, "off");
    assert!(!b2);
    assert!(map.is_empty());
}

#[test]
fn hysteresis_same_mode_and_min_one() {
    let mut map = EcoHysteresis::new();
    assert_eq!(
        map.hysteresis_resolve_adaptive_effective("a", "Balanced ", "balanced", 5),
        ("balanced".to_string(), false)
    );
    assert_eq!(
        map.hysteresis_resolve_adaptive_effective("a", "off", "aggressive", 0),
        ("aggressive".to_string(), false)
    );
    assert!(map.is_empty());
    // a different target restarts the streak
    let _ = map.hysteresis_resolve_adaptive_effective("b", "off", "balanced", 3);
    let _ = map.hysteresis_resolve_adaptive_effective("b", "off", "aggressive", 3);
    let (m, blocked) = map.hysteresis_resolve_adaptive_effective("b", "off", "aggressive", 3);
    assert_eq!(m, "off");
    assert!(blocked);
    let (m, blocked) = map.hysteresis_resolve_adaptive_effective("b", "off", "aggressive", 3);
    assert_eq!(m, "aggressive");
    assert!(!blocked);
}

#[test]
fn project_id_sets_compression_profile_id() {
    let mut streaks = CacheStreaks::new();
    let mut input = input_with("balanced", "openrouter", "m");
    input.project_id = Some("acme-customer-prod".to_string());
    let snap = resolve_adaptive_eco_turn(&input, "hi", &mut streaks);
    assert_eq!(snap.compression_profile_id.as_deref(), Some("quality_preserve"));
    assert!(snap.reason_codes.iter().any(|s| s == "ainl_profile_hint:quality_preserve"));
}

#[test]
fn structured_guard_caps_aggressive_recommendation() {
    let mut streaks = CacheStreaks::new();
    let input = input_with("aggressive", "anthropic", "sonnet-4-20250514");
    let msg = format!(
        "{}\n```json\n{{\"x\":1}}\n```\n```sql\nSELECT 1;\n```\n",
        "{\"a\":1,\"b\":2,\"c\":3,\"d\":4,\"e\":5,\"f\":6,\"g\":7,\"h\":8}".repeat(8)
    );
    let snap = resolve_adaptive_eco_turn(&input, msg.as_str(), &mut streaks);
    assert_eq!(snap.recommended_mode, "balanced");
    assert!(snap.reason_codes.iter().any(|s| s.starts_with("structured_payload_guard")));
}

#[test]
fn structured_payload_detection() {
    assert!(!structured_payload_heavy("short {}{}{}{}{}{}"));
    let prose = "word ".repeat(30);
    assert!(!structured_payload_heavy(&prose));
    assert!(structured_payload_heavy(&format!("{prose}```a``` ```b```")));
    assert!(structured_payload_heavy(&format!("{prose}{}", "{".repeat(10))));
    assert!(!structured_payload_heavy(&format!("{prose}{}", "{".repeat(9))));
    assert!(structured_payload_heavy(&format!("{prose} select * from t where x = 1;")));
    assert!(!structured_payload_heavy(&format!("{prose} select * from t")));
}

#[test]
fn plan_with_content_recommendation_exact_codes() {
    let mut streaks = CacheStreaks::new();
    let mut input = input_with("balanced", " anthropic ", " m1 ");
    input.adaptive_compression = true;
    input.enforce = true;
    input.price_code = Some("input_price_per_million:3.000000".to_string());
    let plan = plan_adaptive_eco_turn(
        &input,
        "hello",
        Some((2, vec!["long_prose_budget_pressure".to_string()])),
        &mut streaks,
    );
    assert_eq!(plan.provider, "anthropic");
    assert_eq!(plan.model, "m1");
    assert_eq!(plan.recommended_mode, "aggressive");
    assert_eq!(plan.content_recommendation.as_deref(), Some("aggressive"));
    assert_eq!(plan.cache_prompt_streak, Some(1));
    assert_eq!(plan.cache_effective_ttl_secs, Some(330));
    assert_eq!(
        plan.reason_codes,
        vec![
            "adaptive_eco:v2_ainl_compression",
            "provider_capability:explicit_prompt_cache",
            "pricing_from_model_catalog",
            "input_price_per_million:3.000000",
            "ainl_content_reason:long_prose_budget_pressure",
            "ainl_cache_stretch:330",
            "enforce:on",
        ]
    );
    // second turn on the same key: streak 2, ttl +20%
    let plan2 = plan_adaptive_eco_turn(&input, "hello", Some((0, vec!["x".to_string()])), &mut streaks);
    assert_eq!(plan2.cache_prompt_streak, Some(2));
    assert_eq!(plan2.cache_effective_ttl_secs, Some(360));
    assert_eq!(plan2.recommended_mode, "balanced");
    // off base stays off whatever the content says
    let mut off = input_with("off", "openai", "m");
    off.adaptive_compression = true;
    let plan3 = plan_adaptive_eco_turn(&off, "x", Some((2, vec![])), &mut streaks);
    assert_eq!(plan3.recommended_mode, "off");
}

#[test]
fn adaptive_resolution_uses_content_recommendation() {
    let mut streaks = CacheStreaks::new();
    let mut input = input_with("balanced", "openai", "m");
    input.adaptive_compression = true;
    let snap = resolve_adaptive_eco_turn(&input, "Hello.", &mut streaks);
    assert_eq!(snap.content_recommendation.as_deref(), Some("off"));
    assert!(snap.reason_codes.iter().any(|s| s == "ainl_content_reason:below_compression_floor"));
    assert_eq!(snap.recommended_mode, "balanced");
}

#[test]
fn cache_streaks_count_and_reset() {
    let mut s = CacheStreaks::new();
    assert_eq!(s.next_cache_streak("a", "a|p"), 1);
    assert_eq!(s.next_cache_streak("a", "a|p"), 2);
    assert_eq!(s.next_cache_streak("b", "b|p"), 1);
    assert_eq!(s.next_cache_streak("a", "a|q"), 1);
    assert_eq!(s.next_cache_streak("a", "a|q"), 2);
}

#[test]
fn resolution_carries_the_plan_for_the_user_message() {
    let mut streaks = CacheStreaks::new();
    let mut input = input_with("off", "  anthropic ", "  sonnet-x ");
    input.adaptive_compression = true;
    input.enforce = true;
    let long = "word ".repeat(400);
    let snap = resolve_adaptive_eco_turn(&input, long.as_str(), &mut streaks);
    assert_eq!(snap.effective_mode, "off");
    assert_eq!(snap.recommended_mode, "off");
    assert_eq!(snap.provider, "anthropic");
    assert_eq!(snap.model, "sonnet-x");
    assert_eq!(snap.cache_capability, "explicit_prompt_cache");
    assert!(snap.enforce);
    assert!(!snap.shadow_only);
    assert_eq!(snap.reason_codes.first().map(|s| s.as_str()), Some("adaptive_eco:v2_ainl_compression"));
    assert_eq!(snap.reason_codes.last().map(|s| s.as_str()), Some("enforce:on"));
    assert_eq!(snap.cache_prompt_streak, Some(1));
    let mut other = CacheStreaks::new();
    let direct = plan_adaptive_eco_turn(&input, long.as_str(), Some((0, vec!["x".to_string()])), &mut other);
    assert_eq!(direct.provider, snap.provider);
}

#[test]
fn normalizing_a_normalized_mode_changes_nothing() {
    for raw in ["", " OFF ", "Aggressive!", "turbo", "balanced", "max aggressive"] {
        let once = normalize_efficient_mode(raw);
        assert!(["off", "balanced", "aggressive"].contains(&once), "{raw:?}");
        assert_eq!(normalize_efficient_mode(once), once, "{raw:?}");
    }
    assert_eq!(normalize_efficient_mode(" OFF "), "off");
    assert_eq!(normalize_efficient_mode("Aggressive!"), "aggressive");
    assert_eq!(normalize_efficient_mode("turbo"), "balanced");
}
