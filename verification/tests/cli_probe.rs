use openfang_runtime::cli_probe::{probe_stdout, ProbeOutput};

#[test]
fn probe_returns_trimmed_stdout_on_success() {
    let out = probe_stdout(Some(ProbeOutput { success: true, stdout: b"hi\n".to_vec() }));
    assert_eq!(out.as_deref(), Some("hi"));
}

#[test]
fn probe_fails_on_error_blank_or_missing_output() {
    assert!(probe_stdout(Some(ProbeOutput { success: false, stdout: b"hi".to_vec() })).is_none());
    assert!(probe_stdout(Some(ProbeOutput { success: true, stdout: b"  \n".to_vec() })).is_none());
    assert!(probe_stdout(None).is_none());
}

#[test]
fn probe_replaces_invalid_utf8() {
    let out = probe_stdout(Some(ProbeOutput { success: true, stdout: vec![b'v', 0xff, b'1'] }));
    assert_eq!(out.as_deref(), Some("v\u{fffd}1"));
}
