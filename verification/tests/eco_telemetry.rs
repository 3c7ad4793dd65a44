use openfang_runtime::eco_telemetry::{
    approx_tok, pct, record_turn, CompressionStats, EcoTelemetry, SAMPLE_CAP,
};

#[test]
fn approx_tok_is_bytes_over_four_plus_one() {
    assert_eq!(approx_tok(""), 1);
    assert_eq!(approx_tok("abcd"), 2);
    assert_eq!(approx_tok("héllo"), 2); // 6 bytes
}

#[test]
fn pct_reduction() {
    assert_eq!(pct(40, 100), 60);
    assert_eq!(pct(5, 0), 0);
    assert_eq!(pct(200, 100), 0);
    assert_eq!(pct(0, 100), 100);
}

#[test]
fn stats_record_and_window_cap() {
    let mut s = CompressionStats::new();
    s.record(100, 60, 40);
    s.record(10, 10, 0);
    assert_eq!(s.turns, 2);
    assert_eq!(s.compressed_turns, 1);
    assert_eq!(s.original_tokens, 110);
    assert_eq!(s.compressed_tokens, 70);
    for _ in 0..SAMPLE_CAP {
        s.record(1, 1, 7);
    }
    assert_eq!(s.savings_pct_samples.len(), SAMPLE_CAP);
    assert_eq!(s.savings_pct_samples.front().copied(), Some(7));
    let mut t = CompressionStats::new();
    t.original_tokens = u64::MAX;
    t.record(5, 0, 0);
    assert_eq!(t.original_tokens, u64::MAX);
}

#[test]
fn record_turn_aggregates_by_mode_and_agent() {
    let mut tel = EcoTelemetry::new();
    record_turn(&mut tel, "agent-1", " Balanced ", "abcdefgh", "abcd", 50);
    record_turn(&mut tel, "agent-1", "", "abcd", "abcd", 0);
    record_turn(&mut tel, "agent-2", "balanced", "abcd", "ab", 25);
    let m = tel.mode_stats("balanced").expect("balanced aggregate");
    assert_eq!(m, (2, 2, 5, 3));
    assert_eq!(tel.mode_stats("off"), Some((1, 0, 2, 2)));
    assert_eq!(tel.agent_mode_stats("agent-1::balanced"), Some((1, 1, 3, 2)));
    assert_eq!(tel.agent_mode_stats("agent-2::balanced"), Some((1, 1, 2, 1)));
    assert_eq!(tel.agent_mode_stats("agent-1::off"), Some((1, 0, 2, 2)));
    assert_eq!(tel.mode_stats("aggressive"), None);
}

#[test]
fn record_turn_keeps_each_sample_window_within_its_cap() {
    let mut tel = EcoTelemetry::new();
    for i in 0..(SAMPLE_CAP + 10) {
        record_turn(&mut tel, "agent-1", "aggressive", "abcdefgh", "abcd", (i % 100) as u8);
    }
    let modes = tel.mode_entries();
    let agent_modes = tel.agent_mode_entries();
    for (key, stats) in modes.iter().chain(agent_modes.iter()) {
        assert!(stats.savings_pct_samples.len() <= SAMPLE_CAP, "{key}");
        assert_eq!(stats.savings_pct_samples.len(), SAMPLE_CAP, "{key}");
        assert_eq!(stats.savings_pct_samples.back().copied(), Some(((SAMPLE_CAP + 9) % 100) as u8));
        assert_eq!(stats.savings_pct_samples.front().copied(), Some((10 % 100) as u8));
    }
}
