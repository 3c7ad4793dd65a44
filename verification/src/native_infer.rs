//! The chat messages sent to a native inference server (`POST {base}/armara/v1/infer`):
//! each conversation message flattened to text, the system prompt first, and the endpoint.

use vstd::prelude::*;
use crate::compose_segments::{ContentBlock, HistoryMessage, MessageContent, MsgRole};
use crate::text::{append_str, chars_to_string, owned, str_chars, sub_vec, trim_end_char, trim_end_char_to};
use crate::tool_errors::{join, join_chars_pub};
use crate::tool_recovery::char_views;

verus! {

/// One chat message of an inference request.
pub struct InferChatMessage {
    pub role: String,
    pub content: String,
}

/// The text a block contributes to a message, if any: text, tool results and thinking as
/// they are, a tool call as `[tool_use <name>] <input>`; images and other blocks nothing.
pub open spec fn block_part(b: ContentBlock) -> Option<Seq<char>> {
    match b {
        ContentBlock::Text { text } => Some(text@),
        ContentBlock::ToolUse { name, input_json } => Some("[tool_use "@ + name@ + "] "@ + input_json@),
        ContentBlock::ToolResult { content, .. } => Some(content@),
        ContentBlock::Thinking { thinking } => Some(thinking@),
        _ => None,
    }
}

/// The parts of the blocks that contribute text, in order.
pub open spec fn block_parts(bs: Seq<ContentBlock>) -> Seq<Seq<char>>
    decreases bs.len(),
{
    if bs.len() == 0 {
        seq![]
    } else {
        let p = block_parts(bs.drop_last());
        match block_part(bs.last()) {
            Some(x) => p.push(x),
            None => p,
        }
    }
}

/// A message's content as one text: plain text as it is, blocks' parts joined by newlines.
pub open spec fn infer_body(c: MessageContent) -> Seq<char> {
    match c {
        MessageContent::Text(s) => s@,
        MessageContent::Blocks(bs) => join(block_parts(bs@), "\n"@),
    }
}

/// The role name of a message.
pub open spec fn role_name(r: MsgRole) -> Seq<char> {
    match r {
        MsgRole::User => "user"@,
        MsgRole::Assistant => "assistant"@,
        MsgRole::System => "system"@,
    }
}

/// A message's content flattened to text for the inference server.
pub fn message_body_for_infer(m: &HistoryMessage) -> (r: String)
    ensures
        r@ == infer_body(m.content),
{
    match &m.content {
        MessageContent::Text(s) => owned(s.as_str()),
        MessageContent::Blocks(blocks) => {
            let mut parts: Vec<Vec<char>> = Vec::new();
            let mut i: usize = 0;
            while i < blocks.len()
                invariant
                    i <= blocks@.len(),
                    char_views(parts@) == block_parts(blocks@.take(i as int)),
                decreases blocks.len() - i,
            {
                proof {
                    assert(blocks@.take(i + 1).drop_last() =~= blocks@.take(i as int));
                    assert(blocks@.take(i + 1).last() == blocks@[i as int]);
                }
                let ghost before = char_views(parts@);
                match &blocks[i] {
                    ContentBlock::Text { text } => {
                        parts.push(str_chars(text.as_str()));
                        assert(char_views(parts@) =~= before.push(text@));
                    },
                    ContentBlock::ToolUse { name, input_json } => {
                        let mut p = str_chars("[tool_use ");
                        append_str(&mut p, name.as_str());
                        append_str(&mut p, "] ");
                        append_str(&mut p, input_json.as_str());
                        let ghost pv = p@;
                        parts.push(p);
                        assert(char_views(parts@) =~= before.push(pv));
                    },
                    ContentBlock::ToolResult { content, .. } => {
                        parts.push(str_chars(content.as_str()));
                        assert(char_views(parts@) =~= before.push(content@));
                    },
                    ContentBlock::Thinking { thinking } => {
                        parts.push(str_chars(thinking.as_str()));
                        assert(char_views(parts@) =~= before.push(thinking@));
                    },
                    _ => {},
                }
                i = i + 1;
            }
            assert(blocks@.take(blocks@.len() as int) =~= blocks@);
            let j = join_chars_pub(&parts, "\n");
            chars_to_string(j.as_slice())
        },
    }
}

fn role_str(r: MsgRole) -> (s: &'static str)
    ensures
        s@ == role_name(r),
{
    match r {
        MsgRole::User => "user",
        MsgRole::Assistant => "assistant",
        MsgRole::System => "system",
    }
}

/// A conversation message as an inference chat message; none when its text is empty.
pub fn openfang_message_to_infer(m: &HistoryMessage) -> (r: Option<InferChatMessage>)
    ensures
        match r {
            Some(cm) => infer_body(m.content).len() > 0 && cm.role@ == role_name(m.role) && cm.content@
                == infer_body(m.content),
            None => infer_body(m.content).len() == 0,
        },
{
    let content = message_body_for_infer(m);
    if content.as_str().unicode_len() == 0 {
        return None;
    }
    Some(InferChatMessage { role: owned(role_str(m.role)), content })
}

/// The (role, content) pairs sent for a request: the system prompt when it is not empty, then
/// every message with text, in order.
pub open spec fn infer_messages_spec(system: Option<Seq<char>>, msgs: Seq<HistoryMessage>) -> Seq<(Seq<char>, Seq<char>)>
    decreases msgs.len(),
{
    if msgs.len() == 0 {
        match system {
            Some(s) => if s.len() > 0 {
                seq![("system"@, s)]
            } else {
                seq![]
            },
            None => seq![],
        }
    } else {
        let p = infer_messages_spec(system, msgs.drop_last());
        let b = infer_body(msgs.last().content);
        if b.len() > 0 {
            p.push((role_name(msgs.last().role), b))
        } else {
            p
        }
    }
}

/// The views of chat messages as (role, content) pairs.
pub open spec fn chat_views(v: Seq<InferChatMessage>) -> Seq<(Seq<char>, Seq<char>)> {
    v.map_values(|m: InferChatMessage| (m.role@, m.content@))
}

/// The chat messages of a completion request.
pub fn infer_messages(system: Option<&str>, messages: &[HistoryMessage]) -> (r: Vec<InferChatMessage>)
    ensures
        chat_views(r@) == infer_messages_spec(
            match system {
                Some(s) => Some(s@),
                None => None,
            },
            messages@,
        ),
{
    let ghost sys = match system {
        Some(s) => Some(s@),
        None => None::<Seq<char>>,
    };
    let mut out: Vec<InferChatMessage> = Vec::new();
    match system {
        Some(s) => {
            if s.unicode_len() > 0 {
                out.push(InferChatMessage { role: owned("system"), content: owned(s) });
            }
        },
        None => {},
    }
    assert(chat_views(out@) =~= infer_messages_spec(sys, messages@.take(0)));
    let mut i: usize = 0;
    while i < messages.len()
        invariant
            i <= messages@.len(),
            chat_views(out@) == infer_messages_spec(sys, messages@.take(i as int)),
        decreases messages.len() - i,
    {
        proof {
            assert(messages@.take(i + 1).drop_last() =~= messages@.take(i as int));
            assert(messages@.take(i + 1).last() == messages@[i as int]);
        }
        let ghost before = chat_views(out@);
        match openfang_message_to_infer(&messages[i]) {
            Some(cm) => {
                let ghost v = (cm.role@, cm.content@);
                out.push(cm);
                assert(chat_views(out@) =~= before.push(v));
            },
            None => {},
        }
        i = i + 1;
    }
    assert(messages@.take(messages@.len() as int) =~= messages@);
    out
}

/// The inference endpoint under `base_url`, trailing slashes of the base dropped.
pub fn infer_url(base_url: &str) -> (r: String)
    ensures
        r@ == trim_end_char(base_url@, '/') + "/armara/v1/infer"@,
{
    let b = str_chars(base_url);
    let end = trim_end_char_to(b.as_slice(), 0, b.len(), '/');
    assert(b@.subrange(0, b@.len() as int) =~= b@);
    let mut v = sub_vec(b.as_slice(), 0, end);
    append_str(&mut v, "/armara/v1/infer");
    chars_to_string(v.as_slice())
}

} // verus!
