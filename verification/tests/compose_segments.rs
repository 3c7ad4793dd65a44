use openfang_runtime::compose_segments::{
    build_history_user_segments, build_segments, build_segments_compiler_root,
    insert_failure_recall_after_system, map_cc_role_to_message,
    map_composed_to_system_and_messages, ContentBlock, HistoryMessage, MessageContent, MsgRole,
    SegKind, SegRole, SegmentPlan,
};

fn text_msg(role: MsgRole, text: &str) -> HistoryMessage {
    HistoryMessage {
        role,
        content: MessageContent::Text(text.to_string()),
        text_content: text.to_string(),
    }
}

fn user(text: &str) -> HistoryMessage {
    text_msg(MsgRole::User, text)
}

fn assistant(text: &str) -> HistoryMessage {
    text_msg(MsgRole::Assistant, text)
}

fn seg(kind: SegKind, role: SegRole, content: &str) -> SegmentPlan {
    SegmentPlan {
        kind,
        role,
        content: content.to_string(),
        age_index: 0,
        tool_name: None,
    }
}

#[test]
fn build_segments_classifies_recent_vs_older_turns() {
    let history = vec![
        user("very old user 1"),
        assistant("very old assistant 1"),
        user("recent user 1"),
        assistant("recent assistant 1"),
        user("recent user 2"),
        assistant("recent assistant 2"),
        user("current user query"),
    ];
    let segs = build_segments("system instructions here", &history, "current user query");
    assert_eq!(segs.len(), 8, "expected system + 6 history + 1 user_prompt");
    assert_eq!(segs.first().expect("system seg").kind, SegKind::SystemPrompt);
    assert_eq!(segs.last().expect("user seg").kind, SegKind::UserPrompt);
    assert_eq!(segs.last().expect("user seg").content, "current user query");

    let middle = &segs[1..segs.len() - 1];
    let older_count = middle.iter().filter(|s| s.kind == SegKind::OlderTurn).count();
    let recent_count = middle.iter().filter(|s| s.kind == SegKind::RecentTurn).count();
    assert_eq!(older_count, 2, "expected 2 older turns");
    assert_eq!(recent_count, 4, "expected 4 recent turns");
}

#[test]
fn build_segments_expands_tool_result_blocks() {
    let history = vec![
        HistoryMessage {
            role: MsgRole::Assistant,
            content: MessageContent::Blocks(vec![
                ContentBlock::Text {
                    text: "Calling tool".to_string(),
                },
                ContentBlock::ToolResult {
                    tool_name: "bash".to_string(),
                    content: "ok".to_string(),
                },
            ]),
            text_content: "Calling tool".to_string(),
        },
        user("current"),
    ];
    let segs = build_segments("sys", &history, "current");
    let tool_segs: Vec<&SegmentPlan> = segs.iter().filter(|s| s.kind == SegKind::ToolResult).collect();
    assert!(!tool_segs.is_empty(), "expected a ToolResult segment");
    assert!(
        segs.iter()
            .any(|s| s.content.contains("Calling tool") || s.content.contains("bash")),
        "expected text + tool"
    );
}

#[test]
fn build_segments_drops_empty_text_messages() {
    let history = vec![user(""), assistant("real reply"), user("current")];
    let segs = build_segments("sys", &history, "current");
    assert_eq!(segs.len(), 3);
}

#[test]
fn tool_result_segment_carries_tool_name_and_age() {
    let history = vec![
        HistoryMessage {
            role: MsgRole::Assistant,
            content: MessageContent::Blocks(vec![
                ContentBlock::Text {
                    text: "Calling tool".to_string(),
                },
                ContentBlock::ToolResult {
                    tool_name: "bash".to_string(),
                    content: "ok".to_string(),
                },
            ]),
            text_content: "Calling tool".to_string(),
        },
        assistant("after"),
    ];
    let segs = build_history_user_segments(&history, "");
    // Text run flushed before the tool result, then the tool result, then the second message.
    assert_eq!(segs.len(), 3);
    assert_eq!(segs[0].content, "Calling tool");
    assert_eq!(segs[0].kind, SegKind::RecentTurn);
    assert_eq!(segs[0].age_index, 1);
    assert_eq!(segs[1].kind, SegKind::ToolResult);
    assert_eq!(segs[1].role, SegRole::Tool);
    assert_eq!(segs[1].content, "ok");
    assert_eq!(segs[1].tool_name.as_deref(), Some("bash"));
    assert_eq!(segs[2].content, "after");
    assert_eq!(segs[2].age_index, 0);
}

#[test]
fn trailing_user_text_used_when_query_empty() {
    let history = vec![assistant("hello"), user("fallback text")];
    let segs = build_segments("", &history, "");
    assert_eq!(segs.len(), 2);
    assert_eq!(segs[0].content, "hello");
    assert_eq!(segs[1].kind, SegKind::UserPrompt);
    assert_eq!(segs[1].content, "fallback text");
}

#[test]
fn failure_recall_goes_after_system_segment() {
    let mut segs = vec![
        seg(SegKind::SystemPrompt, SegRole::System, "sys"),
        seg(SegKind::UserPrompt, SegRole::User, "q"),
    ];
    insert_failure_recall_after_system(&mut segs, seg(SegKind::MemoryBlock, SegRole::System, "recall"));
    assert_eq!(segs.len(), 3);
    assert_eq!(segs[1].content, "recall");

    let mut no_sys = vec![seg(SegKind::UserPrompt, SegRole::User, "q")];
    insert_failure_recall_after_system(&mut no_sys, seg(SegKind::MemoryBlock, SegRole::System, "recall"));
    assert_eq!(no_sys[0].content, "recall");
    assert_eq!(no_sys[1].content, "q");
}

#[test]
fn compiler_root_orders_system_recall_graph_history() {
    let graph = vec![seg(SegKind::MemoryBlock, SegRole::System, "graph fact")];
    let history = vec![assistant("prior"), user("now")];
    let segs = build_segments_compiler_root(
        "base",
        &graph,
        &history,
        "now",
        Some(seg(SegKind::MemoryBlock, SegRole::System, "recall")),
    );
    let contents: Vec<&str> = segs.iter().map(|s| s.content.as_str()).collect();
    assert_eq!(contents, vec!["base", "recall", "graph fact", "prior", "now"]);
}

#[test]
fn composed_segments_map_back_to_system_and_messages() {
    let segs = vec![
        seg(SegKind::SystemPrompt, SegRole::System, "part one"),
        seg(SegKind::MemoryBlock, SegRole::System, "part two"),
        seg(SegKind::RecentTurn, SegRole::Assistant, "reply"),
        seg(SegKind::ToolResult, SegRole::Tool, "tool out"),
        seg(SegKind::RecentTurn, SegRole::User, "   "),
        seg(SegKind::UserPrompt, SegRole::User, "question"),
    ];
    let (system, msgs) = map_composed_to_system_and_messages(&segs, "fallback").expect("some");
    assert_eq!(system, "part one\n\npart two");
    assert_eq!(msgs.len(), 3);
    assert_eq!(msgs[0], (MsgRole::Assistant, "reply".to_string()));
    assert_eq!(msgs[1], (MsgRole::User, "tool out".to_string()));
    assert_eq!(msgs[2], (MsgRole::User, "question".to_string()));
}

#[test]
fn composed_segments_use_fallback_or_none() {
    let segs = vec![seg(SegKind::RecentTurn, SegRole::User, "hi")];
    let (system, msgs) = map_composed_to_system_and_messages(&segs, "fallback").expect("some");
    assert_eq!(system, "fallback");
    assert_eq!(msgs.len(), 1);

    let blank = vec![seg(SegKind::RecentTurn, SegRole::User, "  ")];
    assert!(map_composed_to_system_and_messages(&blank, "").is_none());
}

#[test]
fn tool_role_maps_to_user_message() {
    assert_eq!(map_cc_role_to_message(SegRole::Tool), MsgRole::User);
    assert_eq!(map_cc_role_to_message(SegRole::System), MsgRole::System);
    assert_eq!(map_cc_role_to_message(SegRole::Assistant), MsgRole::Assistant);
}
