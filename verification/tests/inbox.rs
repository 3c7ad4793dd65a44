use openfang_runtime::inbox::{
    inbox_bytes_blank, parse_i64_chars, plan_inbox_edge, plan_inbox_node,
    skip_semantic_for_tagger_policy, EdgeWeight, InboxEnvelope, InboxNodeKind, JsonItem, JsonNum,
    JsonValue, Score,
};

const AGENT: &str = "inbox-test";

fn s(v: &str) -> JsonValue {
    JsonValue::Str(v.to_string())
}

fn uint(v: u64) -> JsonValue {
    JsonValue::Num(JsonNum { as_u64: Some(v), as_i64: Some(v as i64), float_as_i64: v as i64 })
}

fn float(v: f64) -> JsonValue {
    JsonValue::Num(JsonNum { as_u64: None, as_i64: None, float_as_i64: v as i64 })
}

fn strs(v: &[&str]) -> JsonValue {
    JsonValue::Array(v.iter().map(|x| JsonItem::Str(x.to_string())).collect())
}

fn kv(k: &str, v: JsonValue) -> (String, JsonValue) {
    (k.to_string(), v)
}

fn envelope(id: &str, node_type: &str, label: &str, tags: &[&str], payload: Vec<(String, JsonValue)>) -> InboxEnvelope {
    InboxEnvelope {
        is_object: true,
        fields: vec![
            kv("id", s(id)),
            kv("node_type", s(node_type)),
            kv("agent_id", s(AGENT)),
            kv("label", s(label)),
            kv("tags", strs(tags)),
        ],
        payload,
        created_at_secs: 1_700_000_000,
    }
}

fn uuid_u128(text: &str) -> u128 {
    uuid::Uuid::parse_str(text).unwrap().as_u128()
}

#[test]
fn episode_with_vitals_maps_fields() {
    let env = envelope(
        "bbbbbbbb-bbbb-4bbb-8bbb-bbbbbbbbbbbb",
        "episodic",
        "test_episode",
        &[],
        vec![
            kv("tool_calls", strs(&["shell_exec"])),
            kv("turn_id", s("aaaaaaaa-aaaa-4aaa-8aaa-aaaaaaaaaaaa")),
            kv("timestamp", uint(1_700_000_123)),
            kv("vitals_gate", s("pass")),
            kv("vitals_phase", s("reasoning:0.69")),
            kv("vitals_trust", float(0.69)),
        ],
    );
    let node = plan_inbox_node(&env, AGENT, &[], false).expect("episode imported");
    assert_eq!(node.id, uuid_u128("bbbbbbbb-bbbb-4bbb-8bbb-bbbbbbbbbbbb"));
    assert_eq!(node.agent_id, AGENT);
    match node.kind {
        InboxNodeKind::Episode(p) => {
            assert_eq!(p.turn_id, uuid_u128("aaaaaaaa-aaaa-4aaa-8aaa-aaaaaaaaaaaa"));
            assert_eq!(p.timestamp, 1_700_000_123);
            assert_eq!(p.tool_calls, vec!["shell_exec".to_string()]);
            assert_eq!(p.vitals_gate.as_deref(), Some("pass"));
            assert_eq!(p.vitals_phase.as_deref(), Some("reasoning:0.69"));
            assert!(p.vitals_trust);
            assert!(p.tools_invoked.is_none());
        }
        _ => panic!("expected an episode"),
    }
}

#[test]
fn episode_without_vitals_keeps_them_unset_and_uses_created_at() {
    let env = envelope("ep-1", "Episode", "", &[], vec![kv("tools", strs(&["a", "b"]))]);
    match plan_inbox_node(&env, AGENT, &[], false).expect("imported").kind {
        InboxNodeKind::Episode(p) => {
            assert!(p.vitals_gate.is_none());
            assert!(p.vitals_phase.is_none());
            assert!(!p.vitals_trust);
            assert_eq!(p.timestamp, 1_700_000_000);
            assert_eq!(p.tool_calls, vec!["a".to_string(), "b".to_string()]);
        }
        _ => panic!("expected an episode"),
    }
}

#[test]
fn patch_is_imported_as_procedural_record() {
    let env = envelope(
        "cccccccc-cccc-4ccc-8ccc-cccccccccccc",
        "patch",
        "my_patch",
        &[],
        vec![
            kv("label_name", s("L_my_patch")),
            kv("pattern_name", s("my_pattern")),
            kv("source_episode_ids", strs(&["ep1", "ep2"])),
            kv("patch_version", uint(2)),
            kv("patched_at", uint(1_700_000_000)),
            kv("parent_patch_id", s("parent-patch-xyz")),
            kv("retired_at", JsonValue::Null),
        ],
    );
    match plan_inbox_node(&env, AGENT, &[], false).expect("imported").kind {
        InboxNodeKind::Patch(p) => {
            assert_eq!(p.patch_version, 2);
            assert_eq!(p.label, "L_my_patch");
            assert!(!p.retired);
            assert_eq!(p.trace_id.as_deref(), Some("parent-patch-xyz"));
            assert_eq!(p.pattern_name, "my_pattern");
            assert_eq!(p.source_episode_ids, vec!["ep1".to_string(), "ep2".to_string()]);
        }
        _ => panic!("expected a patch"),
    }
}

#[test]
fn retired_patch_sets_retired_and_version_floor() {
    let env = envelope(
        "dddddddd-dddd-4ddd-8ddd-dddddddddddd",
        "patch",
        "old_patch",
        &[],
        vec![
            kv("label_name", s("L_old_patch")),
            kv("pattern_name", s("")),
            kv("patch_version", uint(0)),
            kv("retired_at", uint(1_710_000_000)),
        ],
    );
    match plan_inbox_node(&env, AGENT, &[], false).expect("imported").kind {
        InboxNodeKind::Patch(p) => {
            assert!(p.retired);
            assert_eq!(p.patch_version, 1);
            assert_eq!(p.pattern_name, "L_old_patch");
            assert!(p.trace_id.is_none());
        }
        _ => panic!("expected a patch"),
    }
}

#[test]
fn semantic_fact_fallbacks_and_tagger_policy() {
    let with_fact = envelope("s1", "semantic", "lbl", &[], vec![kv("fact", s("sky is blue")), kv("confidence", float(0.9))]);
    match plan_inbox_node(&with_fact, AGENT, &[], false).expect("imported").kind {
        InboxNodeKind::Semantic(p) => {
            assert_eq!(p.fact, "sky is blue");
            assert_eq!(p.confidence, Score::FromField);
        }
        _ => panic!("expected a fact"),
    }
    let no_fact = envelope("s2", "semantic", "", &[], vec![]);
    match plan_inbox_node(&no_fact, AGENT, &[], false).expect("imported").kind {
        InboxNodeKind::Semantic(p) => {
            assert_eq!(p.fact, "(inbox semantic s2)");
            assert_eq!(p.confidence, Score::Default(70));
        }
        _ => panic!("expected a fact"),
    }
    let features = vec!["requires_ainl_tagger".to_string()];
    let tagged = envelope("s3", "semantic", "x", &["topic:rust"], vec![]);
    assert!(plan_inbox_node(&tagged, AGENT, &features, false).is_none());
    assert!(plan_inbox_node(&tagged, AGENT, &features, true).is_some());
    assert!(skip_semantic_for_tagger_policy(&features, &["t".to_string()], false));
    assert!(!skip_semantic_for_tagger_policy(&features, &[], false));
}

#[test]
fn persona_trait_from_label_prefix() {
    let env = envelope(
        "p1",
        "persona",
        "persona:curious",
        &[],
        vec![kv("learned_from", strs(&["not-a-uuid", "aaaaaaaa-aaaa-4aaa-8aaa-aaaaaaaaaaaa"]))],
    );
    match plan_inbox_node(&env, "writer", &[], false).expect("imported").kind {
        InboxNodeKind::Persona(p) => {
            assert_eq!(p.trait_name, "curious");
            assert_eq!(p.agent_id, AGENT);
            assert_eq!(p.learned_from, vec![uuid_u128("aaaaaaaa-aaaa-4aaa-8aaa-aaaaaaaaaaaa")]);
            assert_eq!(p.strength, Score::Default(50));
        }
        _ => panic!("expected a persona"),
    }
}

#[test]
fn unknown_type_and_non_object_are_skipped() {
    let env = envelope("x", "mystery", "", &[], vec![]);
    assert!(plan_inbox_node(&env, AGENT, &[], false).is_none());
    let mut not_obj = envelope("x", "semantic", "", &[], vec![]);
    not_obj.is_object = false;
    assert!(plan_inbox_node(&not_obj, AGENT, &[], false).is_none());
}

#[test]
fn non_uuid_ids_get_stable_uuids() {
    let a = plan_inbox_node(&envelope("ep-x", "episode", "", &[], vec![]), AGENT, &[], false).unwrap();
    let b = plan_inbox_node(&envelope("ep-x", "episode", "", &[], vec![]), AGENT, &[], false).unwrap();
    assert_eq!(a.id, b.id);
    let expected = uuid::Uuid::new_v5(&uuid::Uuid::NAMESPACE_URL, b"ep-x").as_u128();
    assert_eq!(a.id, expected);
}

#[test]
fn edges_need_both_ends() {
    let e = plan_inbox_edge(
        true,
        &[kv("source_id", s("a")), kv("dst", s("b")), kv("weight", float(0.5))],
    )
    .expect("edge");
    assert_eq!(e.edge_type, "references");
    assert_eq!(e.weight, EdgeWeight::Weight);
    assert_eq!(e.source_id, uuid::Uuid::new_v5(&uuid::Uuid::NAMESPACE_URL, b"a").as_u128());
    assert!(plan_inbox_edge(true, &[kv("src", s("a"))]).is_none());
    let c = plan_inbox_edge(true, &[kv("src", s("a")), kv("dst", s("b")), kv("label", s("follows")), kv("confidence", s("high"))]).unwrap();
    assert_eq!(c.edge_type, "follows");
    assert_eq!(c.weight, EdgeWeight::Default);
}

#[test]
fn integer_parsing_and_blank_inbox() {
    let p = |t: &str| parse_i64_chars(&t.chars().collect::<Vec<char>>());
    assert_eq!(p("42"), Some(42));
    assert_eq!(p("-9223372036854775808"), Some(i64::MIN));
    assert_eq!(p("9223372036854775808"), None);
    assert_eq!(p("+7"), Some(7));
    assert_eq!(p("-"), None);
    assert_eq!(p("1a"), None);
    assert!(inbox_bytes_blank(b" \n\t"));
    assert!(!inbox_bytes_blank(b" {}"));
}
