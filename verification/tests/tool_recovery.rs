use openfang_runtime::tool_recovery::{
    parse_dash_dash_args, parse_json_tool_call_object, recover_text_tool_calls, RecoveredCall,
};

fn names(ns: &[&str]) -> Vec<String> {
    ns.iter().map(|n| n.to_string()).collect()
}

fn json(text: &str) -> serde_json::Value {
    serde_json::from_str(text).expect("canonical JSON")
}

fn input(c: &RecoveredCall) -> serde_json::Value {
    json(&c.input_json)
}

#[test]
fn test_recover_text_tool_calls_basic() {
    let tools = names(&["web_search"]);
    let text =
        r#"Let me search for that. <function=web_search>{"query":"rust async"}</function>"#;
    let calls = recover_text_tool_calls(text, &tools);
    assert_eq!(calls.len(), 1);
    assert_eq!(calls[0].name, "web_search");
    assert_eq!(input(&calls[0])["query"], "rust async");
    assert!(calls[0].id.starts_with("recovered_"));
}

#[test]
fn test_recover_text_tool_calls_xml_parameters() {
    let tools = names(&["shell_exec"]);
    let text = r#"<function=shell_exec><parameter=command>python3 "/tmp/run.py" --flag value</parameter></function>"#;
    let calls = recover_text_tool_calls(text, &tools);
    assert_eq!(calls.len(), 1);
    assert_eq!(calls[0].name, "shell_exec");
    assert_eq!(
        input(&calls[0])["command"],
        r#"python3 "/tmp/run.py" --flag value"#
    );
}

#[test]
fn test_recover_text_tool_calls_xml_parameters_with_wrapper() {
    let tools = names(&["shell_exec"]);
    let text = r#"<tool_call>
<function=shell_exec>
<parameter=command>python3 "/tmp/poll.py" --job-id "abc123"</parameter>
</function>
</tool_call>"#;
    let calls = recover_text_tool_calls(text, &tools);
    assert_eq!(calls.len(), 1);
    assert_eq!(calls[0].name, "shell_exec");
    assert_eq!(
        input(&calls[0])["command"],
        r#"python3 "/tmp/poll.py" --job-id "abc123""#
    );
}

#[test]
fn test_recover_text_tool_calls_unknown_tool() {
    let tools = names(&["web_search"]);
    let text = r#"<function=hack_system>{"cmd":"rm -rf /"}</function>"#;
    let calls = recover_text_tool_calls(text, &tools);
    assert!(calls.is_empty(), "Unknown tools should be rejected");
}

#[test]
fn test_recover_text_tool_calls_invalid_json() {
    let tools = names(&["web_search"]);
    let text = r#"<function=web_search>not valid json</function>"#;
    let calls = recover_text_tool_calls(text, &tools);
    assert!(calls.is_empty(), "Invalid JSON should be skipped");
}

#[test]
fn test_recover_text_tool_calls_multiple() {
    let tools = names(&["web_search", "read_file"]);
    let text = r#"<function=web_search>{"query":"hello"}</function> then <function=read_file>{"path":"a.txt"}</function>"#;
    let calls = recover_text_tool_calls(text, &tools);
    assert_eq!(calls.len(), 2);
    assert_eq!(calls[0].name, "web_search");
    assert_eq!(calls[1].name, "read_file");
}

#[test]
fn test_recover_text_tool_calls_no_pattern() {
    let tools = names(&["web_search"]);
    let text = "Just a normal response with no tool calls.";
    let calls = recover_text_tool_calls(text, &tools);
    assert!(calls.is_empty());
}

#[test]
fn test_recover_text_tool_calls_empty_tools() {
    let text = r#"<function=web_search>{"query":"hello"}</function>"#;
    let calls = recover_text_tool_calls(text, &[]);
    assert!(calls.is_empty(), "No tools = no recovery");
}

// --- Deep edge-case tests for text-to-tool recovery ---

#[test]
fn test_recover_text_tool_calls_nested_json() {
    let tools = names(&["web_search"]);
    let text = r#"<function=web_search>{"query":"rust","filters":{"lang":"en","year":2024}}</function>"#;
    let calls = recover_text_tool_calls(text, &tools);
    assert_eq!(calls.len(), 1);
    assert_eq!(input(&calls[0])["filters"]["lang"], "en");
}

#[test]
fn test_recover_text_tool_calls_with_surrounding_text() {
    let tools = names(&["web_search"]);
    let text = "Sure, let me search that for you.\n\n<function=web_search>{\"query\":\"rust async programming\"}</function>\n\nI'll get back to you with results.";
    let calls = recover_text_tool_calls(text, &tools);
    assert_eq!(calls.len(), 1);
    assert_eq!(input(&calls[0])["query"], "rust async programming");
}

#[test]
fn test_recover_text_tool_calls_whitespace_in_json() {
    let tools = names(&["web_search"]);
    // Some models emit pretty-printed JSON
    let text = "<function=web_search>\n  {\"query\": \"hello world\"}\n</function>";
    let calls = recover_text_tool_calls(text, &tools);
    assert_eq!(calls.len(), 1);
    assert_eq!(input(&calls[0])["query"], "hello world");
}

#[test]
fn test_recover_text_tool_calls_unclosed_tag() {
    let tools = names(&["web_search"]);
    // Missing </function> — should gracefully skip
    let text = r#"<function=web_search>{"query":"test"}"#;
    let calls = recover_text_tool_calls(text, &tools);
    assert!(calls.is_empty(), "Unclosed tag should be skipped");
}

#[test]
fn test_recover_text_tool_calls_missing_closing_bracket() {
    let tools = names(&["web_search"]);
    // Missing > after tool name
    let text = r#"<function=web_search{"query":"test"}</function>"#;
    let calls = recover_text_tool_calls(text, &tools);
    // The parser finds > inside JSON, will likely produce invalid tool name
    // or invalid JSON — either way, should not panic
    // (just verifying no panic / no bad behavior)
    let _ = calls;
}

#[test]
fn test_recover_text_tool_calls_empty_json_object() {
    let tools = names(&["list_files"]);
    let text = r#"<function=list_files>{}</function>"#;
    let calls = recover_text_tool_calls(text, &tools);
    assert_eq!(calls.len(), 1);
    assert_eq!(calls[0].name, "list_files");
    assert_eq!(input(&calls[0]), serde_json::Value::Object(serde_json::Map::new()));
    assert_eq!(calls[0].input_json, "{}");
}

#[test]
fn test_recover_text_tool_calls_mixed_valid_invalid() {
    let tools = names(&["web_search", "read_file"]);
    // First: valid, second: unknown tool, third: valid
    let text = r#"<function=web_search>{"q":"a"}</function> <function=unknown>{"x":1}</function> <function=read_file>{"path":"b"}</function>"#;
    let calls = recover_text_tool_calls(text, &tools);
    assert_eq!(calls.len(), 2, "Should recover 2 valid, skip 1 unknown");
    assert_eq!(calls[0].name, "web_search");
    assert_eq!(calls[1].name, "read_file");
}

// --- Variant 2 pattern tests: <function>NAME{JSON}</function> ---

#[test]
fn test_recover_variant2_basic() {
    let tools = names(&["web_fetch"]);
    let text = r#"<function>web_fetch{"url":"https://example.com"}</function>"#;
    let calls = recover_text_tool_calls(text, &tools);
    assert_eq!(calls.len(), 1);
    assert_eq!(calls[0].name, "web_fetch");
    assert_eq!(input(&calls[0])["url"], "https://example.com");
}

#[test]
fn test_recover_variant2_unknown_tool() {
    let tools = names(&["web_search"]);
    let text = r#"<function>unknown_tool{"q":"test"}</function>"#;
    let calls = recover_text_tool_calls(text, &tools);
    assert_eq!(calls.len(), 0);
}

#[test]
fn test_recover_variant2_with_surrounding_text() {
    let tools = names(&["web_search"]);
    let text = r#"Let me search for that. <function>web_search{"query":"rust lang"}</function> I'll find the answer."#;
    let calls = recover_text_tool_calls(text, &tools);
    assert_eq!(calls.len(), 1);
    assert_eq!(calls[0].name, "web_search");
}

#[test]
fn test_recover_both_variants_mixed() {
    let tools = names(&["web_search", "web_fetch"]);
    // Mix of variant 1 and variant 2
    let text = r#"<function=web_search>{"q":"a"}</function> <function>web_fetch{"url":"https://x.com"}</function>"#;
    let calls = recover_text_tool_calls(text, &tools);
    assert_eq!(calls.len(), 2);
    assert_eq!(calls[0].name, "web_search");
    assert_eq!(calls[1].name, "web_fetch");
}

#[test]
fn test_recover_tool_tag_variant() {
    let tools = names(&["exec"]);
    let text = r#"I'll run that for you. <tool>exec{"command":"ls -la"}</tool>"#;
    let calls = recover_text_tool_calls(text, &tools);
    assert_eq!(calls.len(), 1);
    assert_eq!(calls[0].name, "exec");
    assert_eq!(input(&calls[0])["command"], "ls -la");
}

#[test]
fn test_recover_markdown_code_block() {
    let tools = names(&["exec"]);
    let text = "I'll execute that command:\n```\nexec {\"command\": \"ls -la\"}\n```";
    let calls = recover_text_tool_calls(text, &tools);
    assert_eq!(calls.len(), 1);
    assert_eq!(calls[0].name, "exec");
    assert_eq!(input(&calls[0])["command"], "ls -la");
}

#[test]
fn test_recover_markdown_code_block_with_lang() {
    let tools = names(&["web_search"]);
    let text = "```json\nweb_search {\"query\": \"rust\"}\n```";
    let calls = recover_text_tool_calls(text, &tools);
    assert_eq!(calls.len(), 1);
    assert_eq!(calls[0].name, "web_search");
}

#[test]
fn test_recover_backtick_wrapped() {
    let tools = names(&["exec"]);
    let text = r#"Let me run `exec {"command":"pwd"}` for you."#;
    let calls = recover_text_tool_calls(text, &tools);
    assert_eq!(calls.len(), 1);
    assert_eq!(calls[0].name, "exec");
    assert_eq!(input(&calls[0])["command"], "pwd");
}

#[test]
fn test_recover_backtick_ignores_unknown_tool() {
    let tools = names(&["exec"]);
    let text = r#"Try `unknown_tool {"key":"val"}` instead."#;
    let calls = recover_text_tool_calls(text, &tools);
    assert!(calls.is_empty());
}

#[test]
fn test_recover_no_duplicates_across_patterns() {
    let tools = names(&["exec"]);
    // Same call in both function tag and tool tag — should only appear once
    let text =
        r#"<function=exec>{"command":"ls"}</function> <tool>exec{"command":"ls"}</tool>"#;
    let calls = recover_text_tool_calls(text, &tools);
    assert_eq!(calls.len(), 1);
}

// --- Pattern 6: [TOOL_CALL]...[/TOOL_CALL] tests (issue #354) ---

#[test]
fn test_recover_tool_call_block_json() {
    let tools = names(&["shell_exec"]);
    let text = "[TOOL_CALL]\n{\"name\": \"shell_exec\", \"arguments\": {\"command\": \"ls -la\"}}\n[/TOOL_CALL]";
    let calls = recover_text_tool_calls(text, &tools);
    assert_eq!(calls.len(), 1);
    assert_eq!(calls[0].name, "shell_exec");
    assert_eq!(input(&calls[0])["command"], "ls -la");
}

#[test]
fn test_recover_tool_call_block_arrow_syntax() {
    let tools = names(&["shell_exec"]);
    // Exact format from issue #354
    let text = "[TOOL_CALL]\n{tool => \"shell_exec\", args => {\n--command \"ls -F /\"\n}}\n[/TOOL_CALL]";
    let calls = recover_text_tool_calls(text, &tools);
    assert_eq!(calls.len(), 1);
    assert_eq!(calls[0].name, "shell_exec");
    assert_eq!(input(&calls[0])["command"], "ls -F /");
}

#[test]
fn test_recover_tool_call_block_unknown_tool() {
    let tools = names(&["shell_exec"]);
    let text = "[TOOL_CALL]\n{\"name\": \"hack_system\", \"arguments\": {\"cmd\": \"rm -rf /\"}}\n[/TOOL_CALL]";
    let calls = recover_text_tool_calls(text, &tools);
    assert!(calls.is_empty());
}

#[test]
fn test_recover_tool_call_block_multiple() {
    let tools = names(&["shell_exec", "file_read"]);
    let text = "[TOOL_CALL]\n{\"name\": \"shell_exec\", \"arguments\": {\"command\": \"ls\"}}\n[/TOOL_CALL]\nSome text.\n[TOOL_CALL]\n{\"name\": \"file_read\", \"arguments\": {\"path\": \"/tmp/test.txt\"}}\n[/TOOL_CALL]";
    let calls = recover_text_tool_calls(text, &tools);
    assert_eq!(calls.len(), 2);
    assert_eq!(calls[0].name, "shell_exec");
    assert_eq!(calls[1].name, "file_read");
}

#[test]
fn test_recover_tool_call_block_unclosed() {
    let tools = names(&["shell_exec"]);
    // Unclosed [TOOL_CALL] — pattern 6 skips it, but pattern 8 (bare JSON)
    // still finds the valid JSON tool call object.
    let text = "[TOOL_CALL]\n{\"name\": \"shell_exec\", \"arguments\": {\"command\": \"ls\"}}";
    let calls = recover_text_tool_calls(text, &tools);
    assert_eq!(calls.len(), 1, "Bare JSON fallback should recover this");
    assert_eq!(calls[0].name, "shell_exec");
}

// --- Pattern 7: <tool_call>JSON</tool_call> tests (Qwen3, issue #332) ---

#[test]
fn test_recover_tool_call_xml_basic() {
    let tools = names(&["shell_exec"]);
    let text = "<tool_call>\n{\"name\": \"shell_exec\", \"arguments\": {\"command\": \"ls -la\"}}\n</tool_call>";
    let calls = recover_text_tool_calls(text, &tools);
    assert_eq!(calls.len(), 1);
    assert_eq!(calls[0].name, "shell_exec");
    assert_eq!(input(&calls[0])["command"], "ls -la");
}

#[test]
fn test_recover_tool_call_xml_with_surrounding_text() {
    let tools = names(&["web_search"]);
    let text = "I'll search for that.\n\n<tool_call>\n{\"name\": \"web_search\", \"arguments\": {\"query\": \"rust async\"}}\n</tool_call>\n\nLet me get results.";
    let calls = recover_text_tool_calls(text, &tools);
    assert_eq!(calls.len(), 1);
    assert_eq!(calls[0].name, "web_search");
    assert_eq!(input(&calls[0])["query"], "rust async");
}

#[test]
fn test_recover_tool_call_xml_function_field() {
    let tools = names(&["file_read"]);
    let text = "<tool_call>{\"function\": \"file_read\", \"arguments\": {\"path\": \"/etc/hosts\"}}</tool_call>";
    let calls = recover_text_tool_calls(text, &tools);
    assert_eq!(calls.len(), 1);
    assert_eq!(calls[0].name, "file_read");
}

#[test]
fn test_recover_tool_call_xml_parameters_field() {
    let tools = names(&["web_fetch"]);
    let text = "<tool_call>{\"name\": \"web_fetch\", \"parameters\": {\"url\": \"https://example.com\"}}</tool_call>";
    let calls = recover_text_tool_calls(text, &tools);
    assert_eq!(calls.len(), 1);
    assert_eq!(calls[0].name, "web_fetch");
    assert_eq!(input(&calls[0])["url"], "https://example.com");
}

#[test]
fn test_recover_tool_call_xml_stringified_args() {
    let tools = names(&["shell_exec"]);
    let text = "<tool_call>{\"name\": \"shell_exec\", \"arguments\": \"{\\\"command\\\": \\\"pwd\\\"}\"}</tool_call>";
    let calls = recover_text_tool_calls(text, &tools);
    assert_eq!(calls.len(), 1);
    assert_eq!(calls[0].name, "shell_exec");
    assert_eq!(input(&calls[0])["command"], "pwd");
}

#[test]
fn test_recover_tool_call_xml_unknown_tool() {
    let tools = names(&["shell_exec"]);
    let text = "<tool_call>{\"name\": \"hack_system\", \"arguments\": {\"cmd\": \"rm -rf /\"}}</tool_call>";
    let calls = recover_text_tool_calls(text, &tools);
    assert!(calls.is_empty());
}

#[test]
fn test_recover_tool_call_xml_multiple() {
    let tools = names(&["shell_exec", "web_search"]);
    let text = "<tool_call>{\"name\": \"shell_exec\", \"arguments\": {\"command\": \"ls\"}}</tool_call>\n<tool_call>{\"name\": \"web_search\", \"arguments\": {\"query\": \"rust\"}}</tool_call>";
    let calls = recover_text_tool_calls(text, &tools);
    assert_eq!(calls.len(), 2);
    assert_eq!(calls[0].name, "shell_exec");
    assert_eq!(calls[1].name, "web_search");
}

// --- Pattern 8: Bare JSON tool call object tests ---

#[test]
fn test_recover_bare_json_tool_call() {
    let tools = names(&["shell_exec"]);
    let text =
        "I'll run that: {\"name\": \"shell_exec\", \"arguments\": {\"command\": \"ls -la\"}}";
    let calls = recover_text_tool_calls(text, &tools);
    assert_eq!(calls.len(), 1);
    assert_eq!(calls[0].name, "shell_exec");
    assert_eq!(input(&calls[0])["command"], "ls -la");
}

#[test]
fn test_recover_bare_json_no_false_positive() {
    let tools = names(&["shell_exec"]);
    let text = "The config looks like {\"debug\": true, \"level\": \"info\"}";
    let calls = recover_text_tool_calls(text, &tools);
    assert!(calls.is_empty());
}

#[test]
fn test_recover_bare_json_skipped_when_tags_found() {
    let tools = names(&["shell_exec"]);
    let text = "<function=shell_exec>{\"command\":\"ls\"}</function> {\"name\": \"shell_exec\", \"arguments\": {\"command\": \"pwd\"}}";
    let calls = recover_text_tool_calls(text, &tools);
    assert_eq!(calls.len(), 1);
    assert_eq!(input(&calls[0])["command"], "ls");
}

// --- Pattern 9: XML-attribute style <function name="..." parameters="..." /> ---

#[test]
fn test_recover_xml_attribute_basic() {
    let tools = names(&["web_search"]);
    let text = r#"<function name="web_search" parameters="{&quot;query&quot;: &quot;best crypto 2024&quot;}" />"#;
    let calls = recover_text_tool_calls(text, &tools);
    assert_eq!(calls.len(), 1);
    assert_eq!(calls[0].name, "web_search");
    assert_eq!(input(&calls[0])["query"], "best crypto 2024");
}

#[test]
fn test_recover_xml_attribute_unknown_tool() {
    let tools = names(&["web_search"]);
    let text = r#"<function name="unknown_tool" parameters="{&quot;x&quot;: 1}" />"#;
    let calls = recover_text_tool_calls(text, &tools);
    assert!(calls.is_empty());
}

#[test]
fn test_recover_xml_attribute_non_selfclosing() {
    let tools = names(&["shell_exec"]);
    let text = r#"<function name="shell_exec" parameters="{&quot;command&quot;: &quot;ls&quot;}"></function>"#;
    let calls = recover_text_tool_calls(text, &tools);
    assert_eq!(calls.len(), 1);
    assert_eq!(calls[0].name, "shell_exec");
}

// --- Pattern 10: <|plugin|>...<|endofblock|> tests ---

#[test]
fn test_recover_plugin_block() {
    let tools = names(&["web_search"]);
    let text = "<|plugin|>\n{\"name\": \"web_search\", \"arguments\": {\"query\": \"rust\"}}\n<|endofblock|>";
    let calls = recover_text_tool_calls(text, &tools);
    assert_eq!(calls.len(), 1);
    assert_eq!(calls[0].name, "web_search");
    assert_eq!(input(&calls[0])["query"], "rust");
}

#[test]
fn test_recover_plugin_block_unknown_tool() {
    let tools = names(&["web_search"]);
    let text =
        "<|plugin|>\n{\"name\": \"hack\", \"arguments\": {\"cmd\": \"rm\"}}\n<|endofblock|>";
    let calls = recover_text_tool_calls(text, &tools);
    assert!(calls.is_empty());
}

// --- Pattern 11: Action/Action Input tests ---

#[test]
fn test_recover_action_input() {
    let tools = names(&["web_search"]);
    let text = "Action: web_search\nAction Input: {\"query\": \"rust programming\"}";
    let calls = recover_text_tool_calls(text, &tools);
    assert_eq!(calls.len(), 1);
    assert_eq!(calls[0].name, "web_search");
    assert_eq!(input(&calls[0])["query"], "rust programming");
}

#[test]
fn test_recover_action_input_unknown_tool() {
    let tools = names(&["web_search"]);
    let text = "Action: unknown_tool\nAction Input: {\"key\": \"value\"}";
    let calls = recover_text_tool_calls(text, &tools);
    assert!(calls.is_empty());
}

// --- Pattern 12: name + JSON on next line tests ---

#[test]
fn test_recover_name_json_nextline() {
    let tools = names(&["shell_exec"]);
    let text = "shell_exec\n{\"command\": \"ls -la\"}";
    let calls = recover_text_tool_calls(text, &tools);
    assert_eq!(calls.len(), 1);
    assert_eq!(calls[0].name, "shell_exec");
    assert_eq!(input(&calls[0])["command"], "ls -la");
}

#[test]
fn test_recover_name_json_nextline_unknown() {
    let tools = names(&["shell_exec"]);
    let text = "unknown_tool\n{\"command\": \"ls\"}";
    let calls = recover_text_tool_calls(text, &tools);
    assert!(calls.is_empty());
}

// --- Pattern 13: <tool_use> tests ---

#[test]
fn test_recover_tool_use_block() {
    let tools = names(&["web_search"]);
    let text =
        "<tool_use>{\"name\": \"web_search\", \"arguments\": {\"query\": \"test\"}}</tool_use>";
    let calls = recover_text_tool_calls(text, &tools);
    assert_eq!(calls.len(), 1);
    assert_eq!(calls[0].name, "web_search");
}

#[test]
fn test_recover_tool_use_block_unknown() {
    let tools = names(&["web_search"]);
    let text = "<tool_use>{\"name\": \"hack\", \"arguments\": {\"cmd\": \"rm\"}}</tool_use>";
    let calls = recover_text_tool_calls(text, &tools);
    assert!(calls.is_empty());
}

// --- Helper function tests ---

#[test]
fn test_parse_dash_dash_args_basic() {
    let result = json(&parse_dash_dash_args("{--command \"ls -F /\"}"));
    assert_eq!(result["command"], "ls -F /");
}

#[test]
fn test_parse_dash_dash_args_multiple() {
    let result = json(&parse_dash_dash_args("{--file \"test.txt\", --verbose}"));
    assert_eq!(result["file"], "test.txt");
    assert_eq!(result["verbose"], true);
}

#[test]
fn test_parse_dash_dash_args_unquoted_value() {
    let result = json(&parse_dash_dash_args("{--count 5}"));
    assert_eq!(result["count"], "5");
}

#[test]
fn test_parse_json_tool_call_object_standard() {
    let tool_names = names(&["shell_exec"]);
    let result = parse_json_tool_call_object(
        "{\"name\": \"shell_exec\", \"arguments\": {\"command\": \"ls\"}}",
        &tool_names,
    );
    assert!(result.is_some());
    let (name, args) = result.unwrap();
    assert_eq!(name, "shell_exec");
    assert_eq!(json(&args)["command"], "ls");
}

#[test]
fn test_parse_json_tool_call_object_function_field() {
    let tool_names = names(&["web_fetch"]);
    let result = parse_json_tool_call_object(
        "{\"function\": \"web_fetch\", \"parameters\": {\"url\": \"https://x.com\"}}",
        &tool_names,
    );
    assert!(result.is_some());
    let (name, args) = result.unwrap();
    assert_eq!(name, "web_fetch");
    assert_eq!(json(&args)["url"], "https://x.com");
}

#[test]
fn test_parse_json_tool_call_object_unknown_tool() {
    let tool_names = names(&["shell_exec"]);
    let result =
        parse_json_tool_call_object("{\"name\": \"unknown\", \"arguments\": {}}", &tool_names);
    assert!(result.is_none());
}

#[test]
fn unknown_tool_names_are_never_recovered() {
    let text = r#"<function=shell_exec>{"cmd":"ls"}</function> `web_search {"query":"x"}` {"name":"file_read","arguments":{"path":"a"}}"#;
    let calls = recover_text_tool_calls(text, &names(&["web_search"]));
    assert!(!calls.is_empty());
    assert!(calls.iter().all(|c| c.name == "web_search"), "{:?}", calls.iter().map(|c| c.name.clone()).collect::<Vec<_>>());
    assert!(recover_text_tool_calls(text, &[]).is_empty());
}

#[test]
fn recovered_ids_are_prefixed_uuids() {
    let calls = recover_text_tool_calls(r#"<function=web_search>{"q":"a"}</function>"#, &names(&["web_search"]));
    assert_eq!(calls.len(), 1);
    let id = &calls[0].id;
    assert!(id.starts_with("recovered_"));
    assert_eq!(id.len(), 46);
    assert!(uuid::Uuid::parse_str(&id["recovered_".len()..]).is_ok());
    let again = recover_text_tool_calls(r#"<function=web_search>{"q":"a"}</function>"#, &names(&["web_search"]));
    assert_ne!(again[0].id, calls[0].id);
}

#[test]
fn calls_with_equal_json_values_are_one_call() {
    let text = r#"<function=web_search>{"x":-0.0}</function> <function>web_search{"x":0.0}</function> <function>web_search{"x":1}</function>"#;
    let calls = recover_text_tool_calls(text, &names(&["web_search"]));
    assert_eq!(calls.len(), 2, "{:?}", calls.iter().map(|c| c.input_json.clone()).collect::<Vec<_>>());
}

#[test]
fn parameter_values_are_written_as_json_strings() {
    let out = openfang_runtime::tool_recovery::parse_xml_parameter_blocks(
        "<parameter=q>\n say \"hi\"\\ now\t</parameter><parameter=n>3</parameter>",
    )
    .expect("object");
    assert_eq!(out, r#"{"n":3,"q":"say \"hi\"\\ now"}"#);
    let v: serde_json::Value = serde_json::from_str(&out).unwrap();
    assert_eq!(v["q"], "say \"hi\"\\ now");
}
