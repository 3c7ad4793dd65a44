use openfang_runtime::browser_mode::{
    contains_top_level_return, normalize_js_for_eval, parse_mode_arg, BrowserCommand,
    BrowserMode, BrowserModeConfig,
};

#[test]
fn test_browser_mode_parse_aliases() {
    assert_eq!(BrowserMode::parse("headless"), Some(BrowserMode::Headless));
    assert_eq!(BrowserMode::parse(""), Some(BrowserMode::Headless));
    assert_eq!(BrowserMode::parse("HEADLESS"), Some(BrowserMode::Headless));
    assert_eq!(BrowserMode::parse(" headed "), Some(BrowserMode::Headed));
    assert_eq!(BrowserMode::parse("headful"), Some(BrowserMode::Headed));
    assert_eq!(BrowserMode::parse("visible"), Some(BrowserMode::Headed));
    assert_eq!(BrowserMode::parse("gui"), Some(BrowserMode::Headed));
    assert_eq!(BrowserMode::parse("attach"), Some(BrowserMode::Attach));
    assert_eq!(BrowserMode::parse("connect"), Some(BrowserMode::Attach));
    assert_eq!(BrowserMode::parse("user_chrome"), Some(BrowserMode::Attach));
    assert_eq!(BrowserMode::parse("existing"), Some(BrowserMode::Attach));
    assert_eq!(BrowserMode::parse("nonsense"), None);
}

#[test]
fn test_browser_mode_as_str_roundtrip() {
    for mode in [BrowserMode::Headless, BrowserMode::Headed, BrowserMode::Attach] {
        assert_eq!(BrowserMode::parse(mode.as_str()), Some(mode));
    }
}

#[test]
fn test_browser_mode_from_config_default_mode_wins() {
    let mut cfg = BrowserModeConfig { default_mode: "headed".to_string(), headless: true };
    assert_eq!(BrowserMode::from_config(&cfg), BrowserMode::Headed);
    cfg.default_mode = "attach".to_string();
    assert_eq!(BrowserMode::from_config(&cfg), BrowserMode::Attach);
}

#[test]
fn test_browser_mode_from_config_empty_string_is_headless() {
    let cfg = BrowserModeConfig { default_mode: String::new(), headless: false };
    assert_eq!(BrowserMode::from_config(&cfg), BrowserMode::Headless);
}

#[test]
fn test_browser_mode_from_config_unknown_falls_through_to_legacy() {
    let cfg = BrowserModeConfig { default_mode: "weird-mode".to_string(), headless: false };
    assert_eq!(BrowserMode::from_config(&cfg), BrowserMode::Headed);
}

#[test]
fn test_parse_mode_arg() {
    assert_eq!(parse_mode_arg(None).unwrap(), None);
    assert_eq!(parse_mode_arg(Some("")).unwrap(), None);
    assert_eq!(parse_mode_arg(Some("  ")).unwrap(), None);
    assert_eq!(parse_mode_arg(Some("headless")).unwrap(), Some(BrowserMode::Headless));
    assert_eq!(parse_mode_arg(Some("headed")).unwrap(), Some(BrowserMode::Headed));
    assert_eq!(parse_mode_arg(Some("attach")).unwrap(), Some(BrowserMode::Attach));
    let err = parse_mode_arg(Some("stealth")).unwrap_err();
    assert!(err.contains("Invalid browser mode"));
    assert!(err.contains("headless"));
    assert!(err.contains("headed"));
    assert!(err.contains("attach"));
    assert_eq!(
        err,
        "Invalid browser mode: \"stealth\". Use one of \"headless\", \"headed\", \"attach\"."
    );
}

#[test]
fn top_level_return_detection() {
    assert!(contains_top_level_return("return document.title"));
    assert!(contains_top_level_return("const a = 1; return;"));
    assert!(contains_top_level_return("return"));
    assert!(!contains_top_level_return("function f() { return 1 }"));
    assert!(!contains_top_level_return("document.title"));
    assert!(!contains_top_level_return("returned"));
    assert!(contains_top_level_return("}} return x"));
}

#[test]
fn normalize_js_wraps_only_top_level_return() {
    assert_eq!(
        normalize_js_for_eval("  return document.title;  "),
        "(function() { return document.title; })()"
    );
    assert_eq!(normalize_js_for_eval(" document.title "), "document.title");
    assert_eq!(
        normalize_js_for_eval("(() => { return 1 })()"),
        "(() => { return 1 })()"
    );
    assert_eq!(
        normalize_js_for_eval("(function() { return 2 })()"),
        "(function() { return 2 })()"
    );
}

#[test]
fn browser_command_variants_hold_their_fields() {
    let cmd = BrowserCommand::Scroll { direction: "down".to_string(), amount: 500 };
    match cmd.clone() {
        BrowserCommand::Scroll { direction, amount } => {
            assert_eq!(direction, "down");
            assert_eq!(amount, 500);
        }
        _ => panic!("wrong variant"),
    }
    assert!(matches!(BrowserCommand::Back, BrowserCommand::Back));
}

#[test]
fn mode_parse_ignores_surrounding_space_and_ascii_case() {
    for raw in ["  HeadFul ", "ATTACH", "\tconnect\n", " ", "nope", "Headless"] {
        let normalized = raw.trim().to_ascii_lowercase();
        assert_eq!(BrowserMode::parse(raw), BrowserMode::parse(&normalized), "{raw:?}");
    }
}

#[test]
fn normalizing_js_twice_changes_nothing() {
    let once = normalize_js_for_eval("return document.title");
    assert_eq!(once, "(function() { return document.title })()");
    assert_eq!(normalize_js_for_eval(&once), once);
    let plain = normalize_js_for_eval("  document.title  ");
    assert_eq!(plain, "document.title");
    assert_eq!(normalize_js_for_eval(&plain), plain);
}
