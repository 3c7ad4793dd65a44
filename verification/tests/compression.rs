use openfang_runtime::compression::{apply_if_env, env_flag_enabled};

#[test]
fn env_flag_values() {
    assert!(env_flag_enabled(Some("1")));
    assert!(env_flag_enabled(Some(" TRUE ")));
    assert!(env_flag_enabled(Some("yes")));
    assert!(env_flag_enabled(Some("On")));
    assert!(!env_flag_enabled(Some("0")));
    assert!(!env_flag_enabled(Some("enabled")));
    assert!(!env_flag_enabled(None));
}

#[test]
fn output_compression_off_paths_return_text() {
    let long = "The quick brown fox jumps over the lazy dog again and again. ".repeat(20);
    assert_eq!(apply_if_env(long.clone(), false, None), long);
    assert_eq!(apply_if_env("   ".to_string(), true, None), "   ");
    assert_eq!(apply_if_env(long.clone(), true, Some("disable compression")), long);
    // short texts pass through the compressor unchanged
    assert_eq!(apply_if_env("short answer".to_string(), true, None), "short answer");
}

#[test]
fn output_compression_shrinks_long_prose() {
    let long = "The quick brown fox jumps over the lazy dog again and again. ".repeat(40);
    let out = apply_if_env(long.clone(), true, Some("aggressive"));
    assert!(out.len() < long.len());
}
