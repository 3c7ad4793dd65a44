use ainl_context_compiler::{ContextCompiler, Role as CcRole, Segment};
use openfang_runtime::compose_segments::{
    HistoryMessage, MessageContent, MsgRole, SegKind, SegRole, SegmentPlan,
};
use openfang_runtime::compose_telemetry::{take_compose_turn, ComposeStore};
use openfang_runtime::compose_window::{
    compose_window_segments, history_is_text_only, process_compose_telemetry_for_turn,
};

fn msg(role: MsgRole, text: &str) -> HistoryMessage {
    HistoryMessage { role, content: MessageContent::Text(text.to_string()), text_content: text.to_string() }
}

fn to_compiler(s: &SegmentPlan) -> Segment {
    let role = match s.role {
        SegRole::System => CcRole::System,
        SegRole::User => CcRole::User,
        SegRole::Assistant => CcRole::Assistant,
        SegRole::Tool => CcRole::Tool,
    };
    match s.kind {
        SegKind::SystemPrompt => Segment::system_prompt(s.content.clone()),
        SegKind::UserPrompt => Segment::user_prompt(s.content.clone()),
        SegKind::RecentTurn => Segment::recent_turn(role, s.content.clone(), s.age_index),
        SegKind::OlderTurn => Segment::older_turn(role, s.content.clone(), s.age_index),
        SegKind::ToolResult => Segment::tool_result(s.tool_name.clone().unwrap_or_default(), s.content.clone(), s.age_index),
        SegKind::ToolDefinitions => Segment::tool_definitions(s.content.clone()),
        _ => Segment::memory_block(s.tool_name.clone().unwrap_or_default(), s.content.clone()),
    }
}

#[test]
fn realistic_prompt_records_nonzero_snapshot() {
    let agent = "00000000-0000-0000-0000-0000000000aa";
    let history = vec![
        msg(MsgRole::User, "Earlier I asked about tokio runtimes."),
        msg(MsgRole::Assistant, "You did. We discussed tokio::spawn semantics."),
        msg(MsgRole::User, "Now: how do I structure a graceful shutdown?"),
    ];
    let system_prompt = "You are a Rust expert. Explain concepts clearly with examples.";
    let query = "Now: how do I structure a graceful shutdown?";
    let segs = compose_window_segments(system_prompt, &history, query, None, None, None, false);
    assert!(!segs.is_empty());
    let composed = ContextCompiler::with_defaults().compose(query, segs.iter().map(to_compiler).collect(), None, None);
    let original = composed.telemetry.total_original_tokens as u64;
    let compressed = composed.telemetry.total_compressed_tokens as u64;
    let mut store = ComposeStore::new();
    let replaced = process_compose_telemetry_for_turn(
        &mut store,
        agent,
        original,
        compressed,
        &composed.telemetry.tier,
        false,
        history_is_text_only(&history),
        &segs,
        system_prompt,
    );
    assert!(replaced.is_none());
    let snap = take_compose_turn(&mut store, agent).expect("snapshot recorded");
    assert!(snap.snapshot.original_tokens > 0);
    assert!(snap.snapshot.compressed_tokens > 0);
    assert!(snap.snapshot.compressed_tokens <= snap.snapshot.original_tokens);
    assert_eq!(snap.tier, "heuristic");
}

#[test]
fn zero_estimate_records_nothing_and_apply_replaces_prompt() {
    let mut store = ComposeStore::new();
    let composed = vec![
        SegmentPlan { kind: SegKind::SystemPrompt, role: SegRole::System, content: "sys".into(), age_index: u32::MAX, tool_name: None },
        SegmentPlan { kind: SegKind::UserPrompt, role: SegRole::User, content: "q".into(), age_index: 0, tool_name: None },
    ];
    assert!(process_compose_telemetry_for_turn(&mut store, "a", 0, 0, "heuristic", true, true, &composed, "fb").is_none());
    assert!(take_compose_turn(&mut store, "a").is_none());
    let (s, m) = process_compose_telemetry_for_turn(&mut store, "a", 10, 8, "heuristic", true, true, &composed, "fb").expect("applied");
    assert_eq!(s, "sys");
    assert_eq!(m, vec![(MsgRole::User, "q".to_string())]);
    assert!(process_compose_telemetry_for_turn(&mut store, "a", 10, 8, "heuristic", true, false, &composed, "fb").is_none());
}

#[test]
fn compiler_root_layout_needs_switch_base_and_blocks() {
    let history = vec![msg(MsgRole::User, "q")];
    let graph = vec![SegmentPlan { kind: SegKind::MemoryBlock, role: SegRole::System, content: "fact".into(), age_index: 0, tool_name: Some("known_facts".into()) }];
    let root = compose_window_segments("full system", &history, "q", None, Some(&graph), Some("base"), true);
    let contents: Vec<&str> = root.iter().map(|s| s.content.as_str()).collect();
    assert_eq!(contents, vec!["base", "fact", "q"]);
    let legacy = compose_window_segments("full system", &history, "q", None, Some(&graph), Some("base"), false);
    let contents: Vec<&str> = legacy.iter().map(|s| s.content.as_str()).collect();
    assert_eq!(contents, vec!["full system", "q"]);
}
