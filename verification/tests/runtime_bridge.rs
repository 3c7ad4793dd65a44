use openfang_runtime::runtime_bridge::{
    ainl_runtime_bridge_cache_key, build_output_text, effective_delegation_depth,
    merge_turn_tool_calls, AinlBridgeTurnStatus, AinlRuntimeBridgeInitError, BridgeCache,
};

#[test]
fn init_error_messages() {
    assert_eq!(
        AinlRuntimeBridgeInitError::GraphWriterBusy.message(),
        "GraphMemoryWriter mutex is held; cannot construct bridge synchronously"
    );
    assert_eq!(
        AinlRuntimeBridgeInitError::SqliteOpen("locked".to_string()).message(),
        "failed to open graph sqlite store: locked"
    );
    assert_eq!(
        AinlRuntimeBridgeInitError::GraphPathResolve("no home".to_string()).message(),
        "failed to resolve graph sqlite path: no home"
    );
}

#[test]
fn output_text_prefers_persona_contribution() {
    assert_eq!(
        build_output_text(Some("  be concise  "), "e1", AinlBridgeTurnStatus::Success, 3),
        "be concise"
    );
    assert_eq!(
        build_output_text(Some("   "), "e1", AinlBridgeTurnStatus::Success, 3),
        "[ainl-runtime] turn finished (episode_id=e1, status=Ok, steps=3)"
    );
    assert_eq!(
        build_output_text(None, "e2", AinlBridgeTurnStatus::StepLimitExceeded { steps_executed: 9 }, 9),
        "[ainl-runtime] turn finished (episode_id=e2, status=StepLimitExceeded { steps_executed: 9 }, steps=9)"
    );
}

#[test]
fn tool_calls_merge_adapters_or_default_to_turn() {
    let merged = merge_turn_tool_calls(
        &["shell".to_string()],
        &[Some("patch_a".to_string()), None, Some("shell".to_string()), Some("patch_a".to_string())],
    );
    assert_eq!(merged, vec!["shell".to_string(), "patch_a".to_string()]);
    assert_eq!(merge_turn_tool_calls(&[], &[None]), vec!["turn".to_string()]);
}

#[test]
fn cache_counts_hits_and_misses() {
    let mut c: BridgeCache<u32> = BridgeCache::new();
    let key = ainl_runtime_bridge_cache_key("agent-1", 8);
    assert_eq!(key, "agent-1:8");
    assert!(c.lookup(&key).is_none());
    c.insert(&key, 7);
    assert_eq!(c.lookup(&key), Some(&7));
    c.record_construct_failure();
    c.record_run_failure();
    assert_eq!(c.ainl_runtime_bridge_cache_metrics_snapshot(), (1, 1, 1, 1));
    c.clear();
    assert_eq!(c.ainl_runtime_bridge_cache_metrics_snapshot(), (0, 0, 0, 0));
    assert!(c.lookup(&key).is_none());
    assert_eq!(effective_delegation_depth(0), 1);
    assert_eq!(effective_delegation_depth(5), 5);
}
