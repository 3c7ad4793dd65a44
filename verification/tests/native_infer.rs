use openfang_runtime::compose_segments::{ContentBlock, HistoryMessage, MessageContent, MsgRole};
use openfang_runtime::native_infer::{
    infer_messages, infer_url, message_body_for_infer, openfang_message_to_infer,
};

fn text_msg(role: MsgRole, t: &str) -> HistoryMessage {
    HistoryMessage { role, content: MessageContent::Text(t.to_string()), text_content: t.to_string() }
}

fn blocks_msg(role: MsgRole, blocks: Vec<ContentBlock>) -> HistoryMessage {
    HistoryMessage { role, content: MessageContent::Blocks(blocks), text_content: String::new() }
}

#[test]
fn blocks_are_flattened_with_newlines() {
    let m = blocks_msg(
        MsgRole::Assistant,
        vec![
            ContentBlock::Text { text: "let me look".to_string() },
            ContentBlock::Image,
            ContentBlock::ToolUse { name: "web_search".to_string(), input_json: "{\"q\":\"rust\"}".to_string() },
            ContentBlock::ToolResult { tool_name: "web_search".to_string(), content: "3 hits".to_string() },
            ContentBlock::Thinking { thinking: "hmm".to_string() },
            ContentBlock::Unknown,
        ],
    );
    assert_eq!(
        message_body_for_infer(&m),
        "let me look\n[tool_use web_search] {\"q\":\"rust\"}\n3 hits\nhmm"
    );
    assert_eq!(message_body_for_infer(&text_msg(MsgRole::User, "hi")), "hi");
    assert_eq!(message_body_for_infer(&blocks_msg(MsgRole::User, vec![ContentBlock::Image])), "");
}

#[test]
fn empty_messages_are_dropped() {
    assert!(openfang_message_to_infer(&text_msg(MsgRole::User, "")).is_none());
    let cm = openfang_message_to_infer(&text_msg(MsgRole::Assistant, "ok")).unwrap();
    assert_eq!(cm.role, "assistant");
    assert_eq!(cm.content, "ok");
}

#[test]
fn system_prompt_comes_first() {
    let msgs = vec![
        text_msg(MsgRole::User, "q"),
        blocks_msg(MsgRole::Assistant, vec![ContentBlock::Image]),
        text_msg(MsgRole::System, "note"),
    ];
    let out = infer_messages(Some("be brief"), &msgs);
    let pairs: Vec<(&str, &str)> = out.iter().map(|m| (m.role.as_str(), m.content.as_str())).collect();
    assert_eq!(pairs, vec![("system", "be brief"), ("user", "q"), ("system", "note")]);
    let out2 = infer_messages(Some(""), &msgs[..1]);
    assert_eq!(out2.len(), 1);
    assert_eq!(out2[0].role, "user");
    assert!(infer_messages(None, &[]).is_empty());
}

#[test]
fn endpoint_drops_trailing_slashes() {
    assert_eq!(infer_url("http://127.0.0.1:8080"), "http://127.0.0.1:8080/armara/v1/infer");
    assert_eq!(infer_url("http://h//"), "http://h/armara/v1/infer");
    assert_eq!(infer_url(""), "/armara/v1/infer");
}
