use openfang_runtime::compose_segments::ContentBlock;
use openfang_runtime::compression::CompressionMode;
use openfang_runtime::turn_context::{
    append_section, compressed_input_for_diff, compression_savings_pct, interaction_text,
    orchestration_section, pattern_trace_id, persona_traits_line, readiness_digest_key,
    readiness_fact, session_user_message, strip_images_for_storage, trace_fact_tags,
};

fn text_of(b: &ContentBlock) -> Option<&str> {
    match b {
        ContentBlock::Text { text } => Some(text.as_str()),
        _ => None,
    }
}

#[test]
fn savings_pct_exact_values() {
    assert_eq!(compression_savings_pct(100, 60), 40);
    assert_eq!(compression_savings_pct(3, 2), 34);
    assert_eq!(compression_savings_pct(1000, 1), 100);
    assert_eq!(compression_savings_pct(10, 10), 0);
    assert_eq!(compression_savings_pct(10, 12), 0);
    assert_eq!(compression_savings_pct(0, 0), 0);
}

#[test]
fn session_message_follows_mode() {
    assert_eq!(session_user_message(CompressionMode::Off, "long text", "short"), "long text");
    assert_eq!(session_user_message(CompressionMode::Balanced, "long text", "short"), "short");
    assert_eq!(session_user_message(CompressionMode::Aggressive, "long text", "s"), "s");
}

#[test]
fn diff_input_only_when_saved_and_on() {
    assert_eq!(compressed_input_for_diff(CompressionMode::Balanced, 12, "c"), Some("c".to_string()));
    assert_eq!(compressed_input_for_diff(CompressionMode::Balanced, 0, "c"), None);
    assert_eq!(compressed_input_for_diff(CompressionMode::Off, 40, "c"), None);
}

#[test]
fn strip_images_keeps_other_blocks_in_order() {
    let blocks = vec![
        ContentBlock::Text { text: "a".to_string() },
        ContentBlock::Image,
        ContentBlock::Text { text: "b".to_string() },
    ];
    let out = strip_images_for_storage(&blocks);
    assert_eq!(out.len(), 2);
    assert_eq!(text_of(&out[0]), Some("a"));
    assert_eq!(text_of(&out[1]), Some("b"));
}

#[test]
fn strip_images_leaves_placeholder_when_only_images() {
    let blocks = vec![ContentBlock::Image, ContentBlock::Image];
    let out = strip_images_for_storage(&blocks);
    assert_eq!(out.len(), 1);
    assert_eq!(text_of(&out[0]), Some("[Image processed]"));
}

#[test]
fn strip_images_without_images_is_unchanged() {
    let blocks = vec![
        ContentBlock::Thinking { thinking: "t".to_string() },
        ContentBlock::Text { text: "x".to_string() },
    ];
    let out = strip_images_for_storage(&blocks);
    assert_eq!(out.len(), 2);
    assert!(matches!(&out[0], ContentBlock::Thinking { thinking } if thinking == "t"));
    assert_eq!(text_of(&out[1]), Some("x"));
    assert!(strip_images_for_storage(&[]).is_empty());
}

#[test]
fn append_section_skips_empty_text() {
    let mut p = "base".to_string();
    append_section(&mut p, "");
    assert_eq!(p, "base");
    append_section(&mut p, "more");
    assert_eq!(p, "base\n\nmore");
}

#[test]
fn orchestration_and_persona_lines() {
    assert_eq!(orchestration_section("x"), "\n\n## Orchestration Context\nx");
    assert_eq!(persona_traits_line(&[]), None);
    let traits = vec!["curious".to_string(), "terse".to_string()];
    assert_eq!(
        persona_traits_line(&traits),
        Some("\n\n[Persona traits active: curious, terse]".to_string())
    );
}

#[test]
fn interaction_and_trace_records() {
    assert_eq!(interaction_text("hi", "hello"), "User asked: hi\nI responded: hello");
    assert_eq!(trace_fact_tags(Some("t1")), vec!["trace_id:t1".to_string()]);
    assert!(trace_fact_tags(Some("")).is_empty());
    assert!(trace_fact_tags(None).is_empty());
    assert_eq!(pattern_trace_id(Some("t1")), Some("t1".to_string()));
    assert_eq!(pattern_trace_id(Some("")), None);
    assert_eq!(pattern_trace_id(None), None);
}

#[test]
fn readiness_fact_only_on_change() {
    assert_eq!(readiness_digest_key("a1"), "mcp_readiness_digest:a1");
    let ids = vec!["c1".to_string(), "c2".to_string()];
    assert_eq!(readiness_fact(Some("d"), "d", &ids), None);
    let (fact, tags) = readiness_fact(Some("old"), "d", &ids).unwrap();
    assert_eq!(fact, "MCP readiness snapshot: d");
    assert_eq!(tags, vec!["readiness", "mcp", "planner", "readiness:c1", "readiness:c2"]);
    let (fact2, tags2) = readiness_fact(None, "d", &[]).unwrap();
    assert_eq!(fact2, "MCP readiness snapshot: d");
    assert_eq!(tags2, vec!["readiness", "mcp", "planner"]);
}
