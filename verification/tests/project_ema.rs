use openfang_runtime::compression::CompressionMode;
use openfang_runtime::project_ema::{
    cache_snapshot_from, normalized_profiles_version, operator_mode_label, operator_project_key,
    project_key_of, turn_record_target,
};

#[test]
fn cache_snapshot_defaults() {
    let s = cache_snapshot_from(Some(600), None, Some("balanced"), 42);
    assert_eq!(s.last_effective_ttl_secs, 600);
    assert_eq!(s.last_streak, 0);
    assert_eq!(s.last_content_recommendation, "balanced");
    assert_eq!(s.updated_at_unix, 42);
    let e = cache_snapshot_from(None, Some(3), None, 0);
    assert_eq!(e.last_effective_ttl_secs, 0);
    assert_eq!(e.last_streak, 3);
    assert_eq!(e.last_content_recommendation, "");
}

#[test]
fn turns_recorded_only_with_mode_score_and_project() {
    assert_eq!(
        turn_record_target(CompressionMode::Aggressive, true, Some("  proj-1 ")),
        Some(("proj-1".to_string(), "aggressive"))
    );
    assert!(turn_record_target(CompressionMode::Off, true, Some("p")).is_none());
    assert!(turn_record_target(CompressionMode::Balanced, false, Some("p")).is_none());
    assert!(turn_record_target(CompressionMode::Balanced, true, Some("   ")).is_none());
    assert!(turn_record_target(CompressionMode::Balanced, true, None).is_none());
    assert_eq!(project_key_of(Some(" a ")), Some("a".to_string()));
}

#[test]
fn operator_override_validation() {
    assert_eq!(operator_project_key(" p "), Ok("p".to_string()));
    assert_eq!(operator_project_key("  "), Err("project_id must be non-empty".to_string()));
    assert_eq!(operator_mode_label(Some(" balanced ")), "balanced");
    assert_eq!(operator_mode_label(None), "");
    assert_eq!(normalized_profiles_version(0), 1);
    assert_eq!(normalized_profiles_version(3), 3);
}
