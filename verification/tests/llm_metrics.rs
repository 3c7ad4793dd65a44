use openfang_runtime::llm_metrics::{
    escape_label, prometheus_text, LlmCallMetrics, PrometheusRow, ProviderLlmAgg, PROMETHEUS_HEADER,
};

#[test]
fn escape_label_rules() {
    assert_eq!(escape_label("openai"), "openai");
    assert_eq!(escape_label("a\"b\\c"), "a\\\"b\\\\c");
    assert_eq!(escape_label("x\ny\rz"), "x_y_z");
    assert_eq!(escape_label("my provider/v1.2-b_c"), "my_provider_v1.2-b_c");
    assert_eq!(escape_label("é"), "_");
}

#[test]
fn provider_agg_counts() {
    let mut a = ProviderLlmAgg::new();
    a.on_request_start();
    a.on_request_start();
    a.on_request_end(1_500, true);
    assert_eq!(a.requests, 2);
    assert_eq!(a.errors, 1);
    assert_eq!(a.in_flight, 1);
    assert_eq!(a.latency_sum_ns, 1_500);
    assert_eq!(a.latency_count, 1);
    a.on_request_end(u128::MAX, false);
    assert_eq!(a.latency_sum_ns, 1_500u64.wrapping_add(u64::MAX));
    assert_eq!(a.in_flight, 0);
}

#[test]
fn metrics_are_per_provider() {
    let mut m = LlmCallMetrics::new();
    m.on_request_start("openai");
    m.on_request_start("groq");
    m.on_request_end("openai", 10, false);
    let o = m.get("openai").expect("openai");
    assert_eq!((o.requests, o.in_flight, o.latency_count), (1, 0, 1));
    let g = m.get("groq").expect("groq");
    assert_eq!((g.requests, g.in_flight, g.latency_count), (1, 1, 0));
    assert!(m.get("anthropic").is_none());
}

#[test]
fn provider_counters_list_each_provider_once() {
    let mut m = LlmCallMetrics::new();
    m.on_request_start("openai");
    m.on_request_start("openai");
    m.on_request_start("groq");
    m.on_request_end("openai", 1_000, true);
    let mut rows = m.provider_counters();
    rows.sort_by(|a, b| a.0.cmp(&b.0));
    assert_eq!(rows.len(), 2);
    assert_eq!(rows[0].0, "groq");
    assert_eq!(rows[0].1.requests, 1);
    assert_eq!(rows[1].0, "openai");
    assert_eq!(rows[1].1.requests, 2);
    assert_eq!(rows[1].1.errors, 1);
    assert_eq!(rows[1].1.in_flight, 1);
    assert!(LlmCallMetrics::new().provider_counters().is_empty());
}

#[test]
fn prometheus_text_lines() {
    assert_eq!(prometheus_text(&[]), format!("{PROMETHEUS_HEADER}\n"));
    let mut a = ProviderLlmAgg::new();
    a.on_request_start();
    a.on_request_start();
    a.on_request_end(1_500_000_000, false);
    a.on_request_start();
    a.on_request_end(2, true);
    a.on_request_start();
    a.on_request_end(0, false);
    a.on_request_end(0, false);
    let rows = vec![PrometheusRow {
        provider: "my \"p\"".to_string(),
        counters: a,
        latency_seconds_sum: "1.500000002".to_string(),
    }];
    let text = prometheus_text(&rows);
    assert!(text.starts_with("# HELP llm_requests_total Total LLM HTTP requests started.\n# TYPE llm_requests_total counter\n"));
    let body = &text[PROMETHEUS_HEADER.len()..];
    let label = "my_\\\"p\\\"";
    let expected = format!(
        "llm_requests_total{{provider=\"{label}\"}} 4\n\
         llm_errors_total{{provider=\"{label}\"}} 1\n\
         llm_in_flight{{provider=\"{label}\"}} 0\n\
         llm_latency_seconds_sum{{provider=\"{label}\"}} 1.500000002\n\
         llm_latency_seconds_count{{provider=\"{label}\"}} 4\n\n"
    );
    assert_eq!(body, expected);
}

#[test]
fn prometheus_negative_gauge() {
    let mut a = ProviderLlmAgg::new();
    a.on_request_end(0, false);
    let rows = vec![PrometheusRow { provider: "x".to_string(), counters: a, latency_seconds_sum: "0.000000000".to_string() }];
    let text = prometheus_text(&rows);
    assert!(text.contains("llm_in_flight{provider=\"x\"} -1\n"));
    assert!(text.contains("llm_errors_total{provider=\"x\"} 0\n"));
}
