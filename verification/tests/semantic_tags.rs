use openfang_runtime::semantic_tags::{
    canonical_tag_string, fallback_fact_tags, fallback_tool_tags, tag_ns_prefix,
    tagger_writes_enabled, SemanticTaggerBridge, TagNs,
};

#[test]
fn test_tag_fact_returns_strings() {
    let enabled = tagger_writes_enabled(None);
    let tags = SemanticTaggerBridge::tag_fact("I need help with rust serde and async traits", enabled);
    assert!(
        tags.iter().any(|t| t.contains("rust") || t.starts_with("topic:")),
        "expected topic-style tags, got {tags:?}"
    );
}

#[test]
fn test_tag_episode_from_tool_sequence() {
    let enabled = tagger_writes_enabled(None);
    let tools = vec!["web_search".to_string(), "file_read".to_string()];
    let tags = SemanticTaggerBridge::tag_episode(&tools, enabled);
    assert!(
        tags.iter().any(|t| t.contains("search_web") || t.contains("file_read")),
        "expected tool-derived tags, got {tags:?}"
    );
}

#[test]
fn test_tagger_opt_out_falsy_value_disables() {
    let enabled = tagger_writes_enabled(Some("0"));
    let tags = SemanticTaggerBridge::tag_fact("I need help with rust serde and async traits", enabled);
    assert!(tags.is_empty(), "expected disabled tagger, got {tags:?}");
}

#[test]
fn tagger_switch_values() {
    assert!(tagger_writes_enabled(None));
    assert!(tagger_writes_enabled(Some("1")));
    assert!(tagger_writes_enabled(Some("maybe")));
    assert!(!tagger_writes_enabled(Some(" OFF ")));
    assert!(!tagger_writes_enabled(Some("False")));
    assert!(!tagger_writes_enabled(Some("no")));
}

#[test]
fn episode_tags_are_canonical_tool_tags() {
    let tools = vec!["web_search".to_string(), "sh".to_string()];
    let tags = SemanticTaggerBridge::tag_episode(&tools, true);
    assert_eq!(tags, vec!["tool:search_web".to_string(), "tool:bash".to_string()]);
}

#[test]
fn disabled_tagger_tags_nothing() {
    assert!(SemanticTaggerBridge::tag_episode(&["bash".to_string()], false).is_empty());
    assert!(SemanticTaggerBridge::tag_fact("rust", false).is_empty());
}

#[test]
fn fallback_fact_topics() {
    assert_eq!(
        fallback_fact_tags("Rust SERDE with Traits"),
        vec!["topic:rust".to_string(), "topic:serde".to_string(), "topic:traits".to_string()]
    );
    assert_eq!(fallback_fact_tags("hello"), vec!["topic:general".to_string()]);
    assert!(fallback_fact_tags("   ").is_empty());
}

#[test]
fn fallback_tool_aliases() {
    let calls = vec![" web_search ".to_string(), "".to_string(), "file_read".to_string()];
    assert_eq!(
        fallback_tool_tags(&calls),
        vec!["search_web".to_string(), "web_search".to_string(), "file_read".to_string()]
    );
}

#[test]
fn canonical_tag_strings() {
    assert_eq!(canonical_tag_string(&(TagNs::Preference, "brevity".to_string())), "preference:brevity");
    assert_eq!(tag_ns_prefix(TagNs::Domain), "domain");
}
