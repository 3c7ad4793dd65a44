use openfang_runtime::agent_policy::{
    ainl_runtime_engine_switch_active_with_env, canonicalize_turn_tool_names_for_graph_storage,
    is_silent_token, phantom_action_detected, process_phantom_detected,
    scheduling_phantom_detected, strip_provider_prefix, tool_timeout_for, unescape_xml_entities,
    LoopPhase, AGENT_TOOL_TIMEOUT_SECS, BASE_RETRY_DELAY_MS, MAX_RETRIES, TOOL_TIMEOUT_SECS,
};
use std::time::Duration;

fn timeout(name: &str) -> Duration {
    Duration::from_secs(tool_timeout_for(name))
}

#[test]
fn test_ainl_runtime_engine_switch_matrix_manifest_and_env() {
    assert!(ainl_runtime_engine_switch_active_with_env(true, None, false));
    assert!(ainl_runtime_engine_switch_active_with_env(false, Some("1"), false));
    assert!(!ainl_runtime_engine_switch_active_with_env(false, Some("true"), false));
    assert!(!ainl_runtime_engine_switch_active_with_env(false, None, false));
}

#[test]
fn test_ainl_runtime_engine_switch_kill_switch_wins() {
    assert!(!ainl_runtime_engine_switch_active_with_env(true, Some("1"), true));
    assert!(!ainl_runtime_engine_switch_active_with_env(false, Some("1"), true));
}

#[test]
fn canonicalize_turn_tool_names_empty_ok() {
    assert!(canonicalize_turn_tool_names_for_graph_storage(&[]).is_empty());
    assert!(canonicalize_turn_tool_names_for_graph_storage(&["".into(), "  ".into()]).is_empty());
}

#[test]
fn canonicalize_turn_tool_names_trims_lowercases_and_dedupes() {
    let raw: Vec<String> = vec![" Bash".into(), "file_read".into(), "BASH ".into(), "bash".into()];
    assert_eq!(
        canonicalize_turn_tool_names_for_graph_storage(&raw),
        vec!["bash".to_string(), "file_read".to_string()]
    );
}

#[test]
fn canonicalize_turn_tool_names_shell_aliases_to_single_bash() {
    let raw: Vec<String> = vec!["bash".into(), "Bash".into(), "shell".into(), "sh".into()];
    assert_eq!(
        canonicalize_turn_tool_names_for_graph_storage(&raw),
        vec!["bash".to_string()]
    );
}

#[test]
fn canonicalize_turn_tool_names_python_and_python3_same_key() {
    assert_eq!(
        canonicalize_turn_tool_names_for_graph_storage(&["python".into(), "python3".into()]),
        vec!["python_repl".to_string()]
    );
    assert_eq!(
        canonicalize_turn_tool_names_for_graph_storage(&["python3".into(), "python".into()]),
        vec!["python_repl".to_string()]
    );
}

#[test]
fn canonicalize_turn_tool_names_distinct_tools_preserved() {
    let raw: Vec<String> = vec!["file_read".into(), "search_web".into()];
    assert_eq!(
        canonicalize_turn_tool_names_for_graph_storage(&raw),
        vec!["file_read".to_string(), "search_web".to_string()]
    );
}

#[test]
fn test_retry_constants() {
    assert_eq!(MAX_RETRIES, 3);
    assert_eq!(BASE_RETRY_DELAY_MS, 1000);
}

#[test]
fn test_tool_timeout_constant() {
    assert_eq!(TOOL_TIMEOUT_SECS, 300);
    assert_eq!(AGENT_TOOL_TIMEOUT_SECS, 600);
}

#[test]
fn test_tool_timeout_for_agent_tools() {
    assert_eq!(timeout("agent_send"), Duration::from_secs(600));
    assert_eq!(timeout("agent_spawn"), Duration::from_secs(600));
    assert_eq!(timeout("document_extract"), Duration::from_secs(180));
    assert_eq!(timeout("spreadsheet_build"), Duration::from_secs(180));
    // Media generation / external AI APIs
    assert_eq!(timeout("image_generate"), Duration::from_secs(300));
    assert_eq!(timeout("text_to_speech"), Duration::from_secs(300));
    assert_eq!(timeout("media_describe"), Duration::from_secs(300));
    assert_eq!(timeout("a2a_send"), Duration::from_secs(300));
    // Persistent process tools
    assert_eq!(timeout("process_start"), Duration::from_secs(30));
    assert_eq!(timeout("process_poll"), Duration::from_secs(30));
    // Standard tools use TOOL_TIMEOUT_SECS (300s)
    assert_eq!(timeout("file_read"), Duration::from_secs(300));
    assert_eq!(timeout("shell_exec"), Duration::from_secs(300));
}

#[test]
fn tool_timeout_for_channel_tools() {
    assert_eq!(tool_timeout_for("channel_send"), 30);
    assert_eq!(tool_timeout_for("channel_stream"), 30);
    assert_eq!(tool_timeout_for("process_list"), 30);
    assert_eq!(tool_timeout_for("Agent_send"), 300);
}

#[test]
fn scheduling_phantom_triggers_without_schedule_tools() {
    let tools: Vec<String> = Vec::new();
    assert!(scheduling_phantom_detected(
        "Please schedule my ainl to run daily at 9am",
        "Done — I've scheduled it and it will run every morning.",
        &tools,
    ));
}

#[test]
fn scheduling_phantom_suppressed_when_schedule_tool_ran() {
    let tools = vec!["schedule_create".to_string()];
    assert!(!scheduling_phantom_detected(
        "Please schedule my ainl to run daily",
        "All set.",
        &tools,
    ));
}

#[test]
fn scheduling_phantom_not_triggered_without_user_intent() {
    let tools: Vec<String> = Vec::new();
    assert!(!scheduling_phantom_detected(
        "What is cron?",
        "Cron is a Unix job scheduler.",
        &tools,
    ));
}

#[test]
fn scheduling_phantom_is_case_insensitive() {
    let tools = vec!["file_read".to_string()];
    assert!(scheduling_phantom_detected(
        "Set up a CRON timer for the backup",
        "The job RUNS EVERY hour now.",
        &tools,
    ));
}

#[test]
fn phantom_action_needs_verb_and_channel() {
    assert!(phantom_action_detected("I have SENT the report to Slack."));
    assert!(!phantom_action_detected("I have sent the report."));
    assert!(!phantom_action_detected("Slack is a chat tool."));
}

#[test]
fn process_phantom_start_and_stop_claims() {
    let none: Vec<String> = Vec::new();
    assert!(process_phantom_detected("The bot is NOW RUNNING.", &none));
    let started = vec!["process_start".to_string()];
    assert!(!process_phantom_detected("The bot is now running.", &started));
    assert!(process_phantom_detected("I killed it.", &started));
    let stopped = vec!["process_stop".to_string()];
    assert!(!process_phantom_detected("Process stopped.", &stopped));
    assert!(!process_phantom_detected("Nothing happened.", &none));
}

#[test]
fn test_silent_detection_uppercase() {
    assert!(is_silent_token("[SILENT]"));
}

#[test]
fn test_silent_detection_lowercase() {
    assert!(is_silent_token("[silent]"));
}

#[test]
fn test_silent_detection_mixed_case() {
    assert!(is_silent_token("[Silent]"));
}

#[test]
fn test_silent_detection_with_whitespace() {
    assert!(is_silent_token("  [SILENT]  "));
}

#[test]
fn test_silent_detection_no_reply() {
    assert!(is_silent_token("NO_REPLY"));
}

#[test]
fn test_silent_detection_rejects_normal_text() {
    assert!(!is_silent_token("Hello, how can I help?"));
    assert!(!is_silent_token("SILENT"));
    assert!(!is_silent_token(""));
}

#[test]
fn silent_detection_no_reply_is_case_sensitive() {
    assert!(!is_silent_token("no_reply"));
    assert!(is_silent_token("\n NO_REPLY\t"));
}

#[test]
fn strip_provider_prefix_slash_colon_and_none() {
    assert_eq!(
        strip_provider_prefix("openrouter/google/gemini-2.5-flash", "openrouter"),
        "google/gemini-2.5-flash"
    );
    assert_eq!(strip_provider_prefix("ollama:llama3", "ollama"), "llama3");
    assert_eq!(strip_provider_prefix("gpt-4o", "openai"), "gpt-4o");
    assert_eq!(strip_provider_prefix("openai/gpt-4o", "openrouter"), "openai/gpt-4o");
}

#[test]
fn unescape_xml_entities_all_five() {
    assert_eq!(
        unescape_xml_entities("&quot;a&quot; &amp; &lt;b&gt; &apos;c&apos;"),
        "\"a\" & <b> 'c'"
    );
    assert_eq!(unescape_xml_entities("plain"), "plain");
    assert_eq!(unescape_xml_entities("&amp;lt;"), "<");
}

#[test]
fn loop_phase_carries_tool_name() {
    let p = LoopPhase::ToolUse { tool_name: "shell_exec".to_string() };
    assert_eq!(p.clone(), p);
    assert_ne!(LoopPhase::Thinking, LoopPhase::Done);
}
