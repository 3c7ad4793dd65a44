use openfang_runtime::turn_payload::{format_turn_payload, AinlExtractorBridge};

#[test]
fn extracted_facts_follow_the_memory_tags() {
    let tools = vec!["web_search".to_string(), "file_read".to_string()];
    let turn = format_turn_payload("I need help with rust serde and async traits", "Sure, here is how.", &tools);
    let facts = AinlExtractorBridge::extract_facts(&turn, "agent-1");
    let expected: Vec<String> = ainl_graph_extractor::extract_turn_semantic_tags_for_memory(
        "I need help with rust serde and async traits",
        Some("Sure, here is how."),
        &tools,
        None,
    )
    .into_iter()
    .map(|t| format!("{}: {}", t.namespace.prefix(), t.value))
    .collect();
    let got: Vec<String> = facts.iter().map(|f| f.0.clone()).collect();
    let mut got_sorted = got.clone();
    got_sorted.sort();
    let mut expected_sorted = expected.clone();
    expected_sorted.sort();
    assert_eq!(got_sorted, expected_sorted);
    assert!(got.iter().any(|f| f.starts_with("topic: ")), "expected a topic fact, got {got:?}");
    assert!(got.iter().all(|f| !f.starts_with("tool: ") && !f.starts_with("tone: ")));
    for (text, tag) in &facts {
        assert_eq!(*text, format!("{}: {}", tag.namespace.prefix(), tag.value));
    }
}

#[test]
fn extracted_facts_of_an_empty_turn() {
    let turn = format_turn_payload("", "", &[]);
    let facts = AinlExtractorBridge::extract_facts(&turn, "a");
    let expected = ainl_graph_extractor::extract_turn_semantic_tags_for_memory("", Some(""), &[], None);
    assert_eq!(facts.len(), expected.len());
}
