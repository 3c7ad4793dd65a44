//! How a turn's context is put together around the model call: the compressed user message
//! and its savings, images dropped from stored history, the canonical context message, the
//! system-prompt appendices, and what graph memory records for the turn.

use vstd::prelude::*;
use crate::compose_segments::{block_view, ContentBlock};
use crate::compression::CompressionMode;
use crate::text::{append_chars, append_str, chars_to_string, owned, str_chars, string_views};
use crate::tool_errors::{join, join_chars_pub};
use crate::tool_recovery::char_views;

verus! {

/// Savings of a compressed user message, in percent: `100 - compressed·100 / original`
/// (saturating, original at least 1), at most 100.
pub open spec fn savings_pct_spec(original: u64, compressed: u64) -> u8 {
    let o: int = if original == 0 { 1 } else { original as int };
    let q = (compressed as int * 100) / o;
    (if q >= 100 { 0 } else { 100 - q }) as u8
}

/// Savings of a compressed user message, in percent; zero when nothing was saved.
pub fn compression_savings_pct(original_tokens: u64, compressed_tokens: u64) -> (r: u8)
    requires
        compressed_tokens <= u64::MAX / 100,
    ensures
        r == if original_tokens > compressed_tokens {
            savings_pct_spec(original_tokens, compressed_tokens)
        } else {
            0u8
        },
{
    if original_tokens <= compressed_tokens {
        return 0;
    }
    let o: u64 = if original_tokens == 0 {
        1
    } else {
        original_tokens
    };
    let q = (compressed_tokens * 100) / o;
    let pct: u64 = if q >= 100 {
        0
    } else {
        100 - q
    };
    pct as u8
}

/// The user message stored in the session: the compressed text unless compression is off.
pub fn session_user_message(mode: CompressionMode, original: &str, compressed: &str) -> (r: String)
    ensures
        r@ == if mode == CompressionMode::Off { original@ } else { compressed@ },
{
    if mode == CompressionMode::Off {
        owned(original)
    } else {
        owned(compressed)
    }
}

/// The compressed text kept for the dashboard's diff view: only when something was saved and
/// compression is on.
pub fn compressed_input_for_diff(mode: CompressionMode, savings_pct: u8, compressed: &str) -> (r: Option<String>)
    ensures
        match r {
            Some(t) => savings_pct > 0 && mode != CompressionMode::Off && t@ == compressed@,
            None => savings_pct == 0 || mode == CompressionMode::Off,
        },
{
    if savings_pct > 0 && mode != CompressionMode::Off {
        Some(owned(compressed))
    } else {
        None
    }
}

// ---------------------------------------------------------------------------
// Images in stored history
// ---------------------------------------------------------------------------

/// The block is an image.
pub open spec fn is_image(b: ContentBlock) -> bool {
    b is Image
}

/// The blocks without images, in order.
pub open spec fn without_images(bs: Seq<ContentBlock>) -> Seq<ContentBlock>
    decreases bs.len(),
{
    if bs.len() == 0 {
        seq![]
    } else if is_image(bs.last()) {
        without_images(bs.drop_last())
    } else {
        without_images(bs.drop_last()).push(bs.last())
    }
}

/// What a message's blocks become in stored history: unchanged without images; otherwise
/// the images are dropped, and a lone `[Image processed]` text stands in when nothing is left.
pub open spec fn stored_blocks_view(bs: Seq<ContentBlock>) -> Seq<(u8, Seq<char>, Seq<char>)> {
    let had = exists|i: int| 0 <= i < bs.len() && is_image(#[trigger] bs[i]);
    let kept = if had { without_images(bs) } else { bs };
    if had && kept.len() == 0 {
        seq![(0u8, "[Image processed]"@, Seq::<char>::empty())]
    } else {
        kept.map_values(|b: ContentBlock| block_view(b))
    }
}

fn copy_block(b: &ContentBlock) -> (r: ContentBlock)
    ensures
        block_view(r) == block_view(*b),
{
    match b {
        ContentBlock::Text { text } => ContentBlock::Text { text: text.clone() },
        ContentBlock::ToolResult { tool_name, content } => ContentBlock::ToolResult {
            tool_name: tool_name.clone(),
            content: content.clone(),
        },
        ContentBlock::ToolUse { name, input_json } => ContentBlock::ToolUse {
            name: name.clone(),
            input_json: input_json.clone(),
        },
        ContentBlock::Thinking { thinking } => ContentBlock::Thinking { thinking: thinking.clone() },
        ContentBlock::Image => ContentBlock::Image,
        ContentBlock::Unknown => ContentBlock::Unknown,
    }
}

/// The views of blocks.
pub open spec fn blocks_view(bs: Seq<ContentBlock>) -> Seq<(u8, Seq<char>, Seq<char>)> {
    bs.map_values(|b: ContentBlock| block_view(b))
}

/// A message's blocks as stored in the session after the model has seen them.
pub fn strip_images_for_storage(blocks: &[ContentBlock]) -> (r: Vec<ContentBlock>)
    ensures
        blocks_view(r@) == stored_blocks_view(blocks@),
{
    let mut had = false;
    let mut kept: Vec<ContentBlock> = Vec::new();
    let mut i: usize = 0;
    while i < blocks.len()
        invariant
            i <= blocks@.len(),
            had == exists|k: int| 0 <= k < i && is_image(#[trigger] blocks@[k]),
            blocks_view(kept@) == blocks_view(without_images(blocks@.take(i as int))),
        decreases blocks.len() - i,
    {
        proof {
            assert(blocks@.take(i + 1).drop_last() =~= blocks@.take(i as int));
            assert(blocks@.take(i + 1).last() == blocks@[i as int]);
        }
        let ghost before = blocks_view(kept@);
        match &blocks[i] {
            ContentBlock::Image => {
                had = true;
            },
            _ => {
                let c = copy_block(&blocks[i]);
                kept.push(c);
                assert(blocks_view(kept@) =~= before.push(block_view(blocks@[i as int])));
                assert(blocks_view(without_images(blocks@.take(i + 1))) =~= blocks_view(without_images(blocks@.take(i as int))).push(block_view(blocks@[i as int])));
            },
        }
        i = i + 1;
    }
    assert(blocks@.take(blocks@.len() as int) =~= blocks@);
    if !had {
        let mut all: Vec<ContentBlock> = Vec::new();
        let mut j: usize = 0;
        while j < blocks.len()
            invariant
                j <= blocks@.len(),
                blocks_view(all@) == blocks_view(blocks@.take(j as int)),
            decreases blocks.len() - j,
        {
            let c = copy_block(&blocks[j]);
            let ghost before = blocks_view(all@);
            all.push(c);
            assert(blocks_view(all@) =~= before.push(block_view(blocks@[j as int])));
            assert(blocks_view(blocks@.take(j + 1)) =~= blocks_view(blocks@.take(j as int)).push(block_view(blocks@[j as int])));
            j = j + 1;
        }
        assert(blocks@.take(blocks@.len() as int) =~= blocks@);
        return all;
    }
    if kept.len() == 0 {
        let mut v: Vec<ContentBlock> = Vec::new();
        v.push(ContentBlock::Text { text: owned("[Image processed]") });
        assert(blocks_view(v@) =~= seq![(0u8, "[Image processed]"@, Seq::<char>::empty())]);
        return v;
    }
    kept
}

// ---------------------------------------------------------------------------
// System prompt appendices and memory records
// ---------------------------------------------------------------------------

/// `text` appended to a prompt after a blank line, when it is not empty.
pub fn append_section(prompt: &mut String, text: &str)
    ensures
        final(prompt)@ == if text@.len() == 0 { old(prompt)@ } else { old(prompt)@ + "\n\n"@ + text@ },
{
    if text.is_empty() {
        return;
    }
    let mut v = str_chars(prompt.as_str());
    append_str(&mut v, "\n\n");
    append_str(&mut v, text);
    *prompt = chars_to_string(v.as_slice());
}

/// The orchestration section of the system prompt.
pub fn orchestration_section(appendix: &str) -> (r: String)
    ensures
        r@ == "\n\n## Orchestration Context\n"@ + appendix@,
{
    let mut v = str_chars("\n\n## Orchestration Context\n");
    append_str(&mut v, appendix);
    chars_to_string(v.as_slice())
}

/// The persona line appended to the system prompt for the active traits, if any.
pub fn persona_traits_line(traits: &[String]) -> (r: Option<String>)
    ensures
        match r {
            Some(l) => traits@.len() > 0 && l@ == "\n\n[Persona traits active: "@ + join(string_views(traits@), ", "@) + "]"@,
            None => traits@.len() == 0,
        },
{
    if traits.len() == 0 {
        return None;
    }
    let mut parts: Vec<Vec<char>> = Vec::new();
    let mut i: usize = 0;
    while i < traits.len()
        invariant
            i <= traits@.len(),
            char_views(parts@) == string_views(traits@).take(i as int),
        decreases traits.len() - i,
    {
        let c = str_chars(traits[i].as_str());
        let ghost before = char_views(parts@);
        parts.push(c);
        assert(char_views(parts@) =~= before.push(traits@[i as int]@));
        assert(string_views(traits@).take(i + 1) =~= string_views(traits@).take(i as int).push(traits@[i as int]@));
        i = i + 1;
    }
    assert(string_views(traits@).take(traits@.len() as int) =~= string_views(traits@));
    let mut v = str_chars("\n\n[Persona traits active: ");
    let j = join_chars_pub(&parts, ", ");
    append_chars(&mut v, j.as_slice());
    append_str(&mut v, "]");
    Some(chars_to_string(v.as_slice()))
}

/// The interaction remembered after a turn.
pub fn interaction_text(user_message: &str, response: &str) -> (r: String)
    ensures
        r@ == "User asked: "@ + user_message@ + "\nI responded: "@ + response@,
{
    let mut v = str_chars("User asked: ");
    append_str(&mut v, user_message);
    append_str(&mut v, "\nI responded: ");
    append_str(&mut v, response);
    chars_to_string(v.as_slice())
}

/// Fact tags for an orchestrated turn: `trace_id:<id>` when the trace id is not empty.
pub fn trace_fact_tags(trace_id: Option<&str>) -> (r: Vec<String>)
    ensures
        string_views(r@) == match trace_id {
            Some(t) => if t@.len() > 0 { seq!["trace_id:"@ + t@] } else { Seq::<Seq<char>>::empty() },
            None => Seq::<Seq<char>>::empty(),
        },
{
    let mut out: Vec<String> = Vec::new();
    match trace_id {
        Some(t) => if !t.is_empty() {
            let mut v = str_chars("trace_id:");
            append_str(&mut v, t);
            out.push(chars_to_string(v.as_slice()));
            assert(string_views(out@) =~= seq!["trace_id:"@ + t@]);
        } else {
            assert(string_views(out@) =~= Seq::<Seq<char>>::empty());
        },
        None => {
            assert(string_views(out@) =~= Seq::<Seq<char>>::empty());
        },
    }
    out
}

/// The trace id a recorded pattern carries: the orchestration trace id, when not empty.
pub fn pattern_trace_id(trace_id: Option<&str>) -> (r: Option<String>)
    ensures
        match r {
            Some(s) => trace_id is Some && s@ == trace_id->0@ && s@.len() > 0,
            None => trace_id is None || trace_id->0@.len() == 0,
        },
{
    match trace_id {
        Some(t) => if t.is_empty() {
            None
        } else {
            Some(owned(t))
        },
        None => None,
    }
}

/// The shared-memory key of an agent's MCP readiness digest.
pub fn readiness_digest_key(agent_id: &str) -> (r: String)
    ensures
        r@ == "mcp_readiness_digest:"@ + agent_id@,
{
    let mut v = str_chars("mcp_readiness_digest:");
    append_str(&mut v, agent_id);
    chars_to_string(v.as_slice())
}

/// The fact and tags recorded when the readiness digest changed: `None` when it equals the
/// previous digest.
pub fn readiness_fact(previous_digest: Option<&str>, digest: &str, check_ids: &[String]) -> (r: Option<(String, Vec<String>)>)
    ensures
        match r {
            Some((fact, tags)) => !(previous_digest matches Some(p) && p@ == digest@)
                && fact@ == "MCP readiness snapshot: "@ + digest@
                && string_views(tags@) == seq!["readiness"@, "mcp"@, "planner"@] + string_views(check_ids@).map_values(
                    |id: Seq<char>| "readiness:"@ + id,
                ),
            None => previous_digest matches Some(p) && p@ == digest@,
        },
{
    match previous_digest {
        Some(p) => {
            if crate::text::eq_str(str_chars(p).as_slice(), digest) {
                return None;
            }
        },
        None => {},
    }
    let mut f = str_chars("MCP readiness snapshot: ");
    append_str(&mut f, digest);
    let mut tags: Vec<String> = Vec::new();
    tags.push(owned("readiness"));
    tags.push(owned("mcp"));
    tags.push(owned("planner"));
    let ghost head = seq!["readiness"@, "mcp"@, "planner"@];
    assert(string_views(tags@) =~= head);
    let ghost ids = string_views(check_ids@).map_values(|id: Seq<char>| "readiness:"@ + id);
    let mut i: usize = 0;
    while i < check_ids.len()
        invariant
            i <= check_ids@.len(),
            ids == string_views(check_ids@).map_values(|id: Seq<char>| "readiness:"@ + id),
            string_views(tags@) == head + ids.take(i as int),
        decreases check_ids.len() - i,
    {
        let mut t = str_chars("readiness:");
        append_str(&mut t, check_ids[i].as_str());
        let ghost before = string_views(tags@);
        let ghost tv = t@;
        tags.push(chars_to_string(t.as_slice()));
        assert(string_views(tags@) =~= before.push(tv));
        assert(ids.take(i + 1) =~= ids.take(i as int).push(ids[i as int]));
        i = i + 1;
    }
    assert(ids.take(check_ids@.len() as int) =~= ids);
    Some((chars_to_string(f.as_slice()), tags))
}

} // verus!
