use openfang_runtime::compose_telemetry::{
    record_compose_turn, take_compose_turn, ComposeSnapshot, ComposeStore, RECENT_TURN_THRESHOLD,
};

#[test]
fn record_then_take_returns_snapshot_once() {
    let mut store = ComposeStore::new();
    let id = "00000000-0000-0000-0000-0000000000a1";
    record_compose_turn(&mut store, id, 1000, 400, "heuristic");

    let first = take_compose_turn(&mut store, id).expect("first take should return value");
    assert_eq!(first.snapshot.original_tokens, 1000);
    assert_eq!(first.snapshot.compressed_tokens, 400);
    assert_eq!(first.snapshot.tokens_saved(), 600);
    assert_eq!(first.tier, "heuristic");

    assert!(
        take_compose_turn(&mut store, id).is_none(),
        "second take should return None (consumed)"
    );
}

#[test]
fn overwrite_semantics_keep_latest_only() {
    let mut store = ComposeStore::new();
    let id = "00000000-0000-0000-0000-0000000000a2";
    record_compose_turn(&mut store, id, 100, 50, "heuristic");
    record_compose_turn(&mut store, id, 200, 80, "heuristic_summarization");

    let snap = take_compose_turn(&mut store, id).expect("snapshot present");
    assert_eq!(snap.snapshot.original_tokens, 200);
    assert_eq!(snap.snapshot.compressed_tokens, 80);
    assert_eq!(snap.tier, "heuristic_summarization");
}

#[test]
fn agents_are_isolated() {
    let mut store = ComposeStore::new();
    let a = "00000000-0000-0000-0000-0000000000a3";
    let b = "00000000-0000-0000-0000-0000000000a4";
    record_compose_turn(&mut store, a, 10, 5, "heuristic");
    record_compose_turn(&mut store, b, 20, 7, "heuristic");

    let snap_a = take_compose_turn(&mut store, a).expect("a present");
    let snap_b = take_compose_turn(&mut store, b).expect("b present");
    assert_eq!(snap_a.snapshot.original_tokens, 10);
    assert_eq!(snap_b.snapshot.original_tokens, 20);
}

#[test]
fn take_without_record_is_none() {
    let mut store = ComposeStore::new();
    assert!(take_compose_turn(&mut store, "nobody").is_none());
    record_compose_turn(&mut store, "a", 1, 1, "heuristic");
    assert!(take_compose_turn(&mut store, "b").is_none());
    assert!(take_compose_turn(&mut store, "a").is_some());
}

#[test]
fn tokens_saved_saturates() {
    let s = ComposeSnapshot { original_tokens: 5, compressed_tokens: 9 };
    assert_eq!(s.tokens_saved(), 0);
    let t = ComposeSnapshot { original_tokens: 9, compressed_tokens: 5 };
    assert_eq!(t.tokens_saved(), 4);
    assert_eq!(RECENT_TURN_THRESHOLD, 4);
}
