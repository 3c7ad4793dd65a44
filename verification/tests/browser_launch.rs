use openfang_runtime::browser_launch::{
    attach_unreachable_message, cdp_list_url, cdp_port_from_ws_url, chromium_candidates,
    chromium_launch_args, configured_path_missing, devtools_url_from_line, is_running_as_root,
    launch_env_keys, path_lookup_names, TargetOs,
};

#[test]
fn test_chromium_candidates_not_empty() {
    let candidates = chromium_candidates(TargetOs::Linux, "", "", "");
    assert!(!candidates.is_empty());
    assert_eq!(candidates[0], "/usr/bin/google-chrome");
}

#[test]
fn windows_candidates_skip_empty_dirs() {
    let c = chromium_candidates(TargetOs::Windows, "C:\\PF", "", "C:\\Local");
    assert_eq!(c.len(), 5);
    assert_eq!(c[0], "C:\\PF\\Google\\Chrome\\Application\\chrome.exe");
    assert_eq!(c[3], "C:\\Local\\Google\\Chrome\\Application\\chrome.exe");
    assert!(chromium_candidates(TargetOs::Other, "", "", "").is_empty());
    assert_eq!(chromium_candidates(TargetOs::MacOs, "", "", "").len(), 4);
}

#[test]
fn launch_args_by_mode() {
    let headless = chromium_launch_args(1280, 720, true, false);
    assert_eq!(headless.first().map(String::as_str), Some("--headless=new"));
    assert_eq!(headless.last().map(String::as_str), Some("--disable-gpu"));
    assert!(headless.contains(&"--window-size=1280,720".to_string()));
    let headed_root = chromium_launch_args(800, 600, false, true);
    assert_eq!(headed_root[0], "--remote-debugging-port=0");
    assert_eq!(headed_root.last().map(String::as_str), Some("--no-sandbox"));
    assert_eq!(headed_root.len(), 13);
    assert_eq!(launch_env_keys().len(), 13);
    assert_eq!(path_lookup_names()[0], "google-chrome");
}

#[test]
fn test_is_running_as_root_returns_bool() {
    let status = "Name:\tx\nUid:\t1000\t0\t0\t0\nGid:\t0\n";
    assert!(is_running_as_root(Some(status), Some("/home/u")));
    let user = "Uid:\t0\t1000\t1000\t1000\n";
    assert!(!is_running_as_root(Some(user), Some("/root")));
    assert!(is_running_as_root(None, Some("/root")));
    assert!(!is_running_as_root(Some("Name: x\n"), None));
}

#[test]
fn devtools_endpoint_parsing() {
    let line = "DevTools listening on ws://127.0.0.1:39213/devtools/browser/abc  ";
    let url = devtools_url_from_line(line).expect("url");
    assert_eq!(url, "ws://127.0.0.1:39213/devtools/browser/abc");
    assert!(devtools_url_from_line("[123] some other log").is_none());
    assert_eq!(cdp_port_from_ws_url(&url).as_deref(), Some("39213"));
    assert!(cdp_port_from_ws_url("no scheme here").is_none());
    assert!(cdp_port_from_ws_url("ws://localhost/path").is_none());
    assert_eq!(cdp_list_url("39213"), "http://127.0.0.1:39213/json/list");
}

#[test]
fn messages() {
    assert_eq!(configured_path_missing("/x/chrome"), "Configured chromium_path not found: /x/chrome");
    assert!(attach_unreachable_message(9222).starts_with("browser_mode=attach: no Chrome reachable on 127.0.0.1:9222."));
}
