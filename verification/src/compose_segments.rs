//! The prompt window as segments for whole-prompt compression telemetry: how the system
//! prompt, the conversation history (recent versus older turns, tool I/O, thinking, images)
//! and the current user message become segments, and how composed segments map back to a
//! system prompt and messages.

use vstd::prelude::*;
use crate::compose_telemetry::RECENT_TURN_THRESHOLD;
use crate::text::{append_str, chars_to_string, owned, str_chars, trim, trim_range};
use crate::tool_errors::join;

verus! {

/// Role of a conversation message.
#[derive(Debug, Clone, Copy, PartialEq, Eq, Structural)]
pub enum MsgRole {
    System,
    User,
    Assistant,
}

/// Speaker of a segment.
#[derive(Debug, Clone, Copy, PartialEq, Eq, Structural)]
pub enum SegRole {
    System,
    User,
    Assistant,
    Tool,
}

/// Classification of a segment.
#[derive(Debug, Clone, Copy, PartialEq, Eq, Structural)]
pub enum SegKind {
    SystemPrompt,
    OlderTurn,
    RecentTurn,
    ToolDefinitions,
    ToolResult,
    UserPrompt,
    AnchoredSummaryRecall,
    MemoryBlock,
}

/// One segment of the prompt window.
#[derive(Debug, Clone)]
pub struct SegmentPlan {
    pub kind: SegKind,
    pub role: SegRole,
    pub content: String,
    /// 0 = newest; larger = older (`u32::MAX` for the system prompt).
    pub age_index: u32,
    pub tool_name: Option<String>,
}

/// One block of a message with structured content.
#[derive(Debug, Clone)]
pub enum ContentBlock {
    Text { text: String },
    ToolResult { tool_name: String, content: String },
    /// A tool invocation; `input_json` is the input rendered as JSON text.
    ToolUse { name: String, input_json: String },
    Thinking { thinking: String },
    Image,
    Unknown,
}

/// The content of a message.
#[derive(Debug, Clone)]
pub enum MessageContent {
    Text(String),
    Blocks(Vec<ContentBlock>),
}

/// A conversation message, with the plain text its content renders to.
#[derive(Debug, Clone)]
pub struct HistoryMessage {
    pub role: MsgRole,
    pub content: MessageContent,
    pub text_content: String,
}

/// A segment's view: kind, role, content, age, tool name.
pub type SegView = (SegKind, SegRole, Seq<char>, u32, Option<Seq<char>>);

/// The view of a segment.
pub open spec fn seg_view(s: SegmentPlan) -> SegView {
    (
        s.kind,
        s.role,
        s.content@,
        s.age_index,
        match s.tool_name {
            Some(t) => Some(t@),
            None => None,
        },
    )
}

/// The views of segments.
pub open spec fn segs_view(v: Seq<SegmentPlan>) -> Seq<SegView> {
    v.map_values(|s: SegmentPlan| seg_view(s))
}

/// The compiler role of a message role.
pub open spec fn seg_role_of(r: MsgRole) -> SegRole {
    match r {
        MsgRole::System => SegRole::System,
        MsgRole::User => SegRole::User,
        MsgRole::Assistant => SegRole::Assistant,
    }
}

/// Map a message role to the compiler's role.
pub fn map_role(role: MsgRole) -> (r: SegRole)
    ensures
        r == seg_role_of(role),
{
    match role {
        MsgRole::System => SegRole::System,
        MsgRole::User => SegRole::User,
        MsgRole::Assistant => SegRole::Assistant,
    }
}

/// A history turn: recent or older by position.
pub open spec fn turn(recent: bool, role: SegRole, content: Seq<char>, age: u32) -> SegView {
    (
        if recent {
            SegKind::RecentTurn
        } else {
            SegKind::OlderTurn
        },
        role,
        content,
        age,
        None,
    )
}

/// The pending text run flushed: a turn when it holds more than whitespace.
pub open spec fn flushed(run: Seq<char>, recent: bool, role: SegRole, age: u32) -> Seq<SegView> {
    if trim(run).len() == 0 {
        seq![]
    } else {
        seq![turn(recent, role, run, age)]
    }
}

/// The view of a content block.
pub open spec fn block_view(b: ContentBlock) -> (u8, Seq<char>, Seq<char>) {
    match b {
        ContentBlock::Text { text } => (0, text@, Seq::<char>::empty()),
        ContentBlock::ToolResult { tool_name, content } => (1, tool_name@, content@),
        ContentBlock::ToolUse { name, input_json } => (2, name@, input_json@),
        ContentBlock::Thinking { thinking } => (3, thinking@, Seq::<char>::empty()),
        ContentBlock::Image => (4, Seq::<char>::empty(), Seq::<char>::empty()),
        ContentBlock::Unknown => (5, Seq::<char>::empty(), Seq::<char>::empty()),
    }
}

/// One block applied to the pending text run and the segments: text blocks accumulate
/// (joined by a blank line); every other block flushes the run first.
pub open spec fn block_step(
    st: (Seq<char>, Seq<SegView>),
    b: (u8, Seq<char>, Seq<char>),
    recent: bool,
    role: SegRole,
    age: u32,
) -> (Seq<char>, Seq<SegView>) {
    let (run, segs) = st;
    if b.0 == 0 {
        if b.1.len() == 0 {
            (run, segs)
        } else if run.len() == 0 {
            (b.1, segs)
        } else {
            (run + "\n\n"@ + b.1, segs)
        }
    } else {
        let segs2 = segs + flushed(run, recent, role, age);
        let added: Seq<SegView> = if b.0 == 1 {
            seq![
                (
                    SegKind::ToolResult,
                    SegRole::Tool,
                    b.2,
                    age,
                    Some(
                        if b.1.len() == 0 {
                            "tool"@
                        } else {
                            b.1
                        },
                    ),
                ),
            ]
        } else if b.0 == 2 {
            seq![
                (
                    SegKind::ToolResult,
                    SegRole::Tool,
                    b.2,
                    age,
                    Some(
                        if b.1.len() == 0 {
                            "tool_use"@
                        } else {
                            b.1
                        },
                    ),
                ),
            ]
        } else if b.0 == 3 {
            if trim(b.1).len() == 0 {
                seq![]
            } else {
                seq![turn(recent, SegRole::Assistant, b.1, age)]
            }
        } else if b.0 == 4 {
            seq![turn(recent, role, "[image attachment]"@, age)]
        } else {
            seq![]
        };
        (seq![], segs2 + added)
    }
}

/// After the given blocks of one message: the pending text run and the segments so far.
pub open spec fn blocks_state(
    bs: Seq<(u8, Seq<char>, Seq<char>)>,
    recent: bool,
    role: SegRole,
    age: u32,
) -> (Seq<char>, Seq<SegView>)
    decreases bs.len(),
{
    if bs.len() == 0 {
        (seq![], seq![])
    } else {
        block_step(blocks_state(bs.drop_last(), recent, role, age), bs.last(), recent, role, age)
    }
}

/// The segments of history message `idx` of `history_len` (recent from `recent_start` on).
pub open spec fn message_segments(m: HistoryMessage, idx: int, history_len: int, recent_start: int) -> Seq<SegView> {
    let age = (history_len - 1 - idx) as u32;
    let recent = idx >= recent_start;
    let role = seg_role_of(m.role);
    match m.content {
        MessageContent::Text(s) => if s@.len() == 0 {
            seq![]
        } else {
            seq![turn(recent, role, s@, age)]
        },
        MessageContent::Blocks(blocks) => {
            let st = blocks_state(
                blocks@.map_values(|b: ContentBlock| block_view(b)),
                recent,
                role,
                age,
            );
            st.1 + flushed(st.0, recent, role, age)
        },
    }
}

fn push_seg(out: &mut Vec<SegmentPlan>, seg: SegmentPlan)
    ensures
        segs_view(final(out)@) == segs_view(old(out)@).push(seg_view(seg)),
{
    let ghost v = seg_view(seg);
    out.push(seg);
    assert(segs_view(out@) =~= segs_view(old(out)@).push(v));
}

fn turn_seg(recent: bool, role: SegRole, content: String, age: u32) -> (r: SegmentPlan)
    ensures
        seg_view(r) == turn(recent, role, content@, age),
{
    SegmentPlan {
        kind: if recent {
            SegKind::RecentTurn
        } else {
            SegKind::OlderTurn
        },
        role,
        content,
        age_index: age,
        tool_name: None,
    }
}

fn flush_run(run: &mut Vec<char>, out: &mut Vec<SegmentPlan>, recent: bool, role: SegRole, age: u32)
    ensures
        final(run)@ == Seq::<char>::empty(),
        segs_view(final(out)@) == segs_view(old(out)@) + flushed(old(run)@, recent, role, age),
{
    let (a, b) = trim_range(run.as_slice(), 0, run.len());
    assert(run@.subrange(0, run@.len() as int) =~= run@);
    if a == b {
        *run = Vec::new();
        assert(segs_view(out@) + seq![] =~= segs_view(out@));
        return;
    }
    let t = chars_to_string(run.as_slice());
    push_seg(out, turn_seg(recent, role, t, age));
    *run = Vec::new();
}

fn push_block(b: &ContentBlock, run: &mut Vec<char>, out: &mut Vec<SegmentPlan>, recent: bool, role: SegRole, age: u32)
    ensures
        ({
            let st = block_step((old(run)@, segs_view(old(out)@)), block_view(*b), recent, role, age);
            &&& final(run)@ == st.0
            &&& segs_view(final(out)@) == st.1
        }),
{
    proof {
        reveal_strlit("\n\n");
    }
    let ghost before = segs_view(out@);
    match b {
        ContentBlock::Text { text } => {
            if !text.as_str().is_empty() {
                if run.len() > 0 {
                    append_str(run, "\n\n");
                }
                append_str(run, text.as_str());
            }
        },
        ContentBlock::ToolResult { tool_name, content } => {
            flush_run(run, out, recent, role, age);
            let name = if tool_name.as_str().is_empty() {
                owned("tool")
            } else {
                tool_name.clone()
            };
            push_seg(
                out,
                SegmentPlan {
                    kind: SegKind::ToolResult,
                    role: SegRole::Tool,
                    content: content.clone(),
                    age_index: age,
                    tool_name: Some(name),
                },
            );
        },
        ContentBlock::ToolUse { name, input_json } => {
            flush_run(run, out, recent, role, age);
            let n = if name.as_str().is_empty() {
                owned("tool_use")
            } else {
                name.clone()
            };
            push_seg(
                out,
                SegmentPlan {
                    kind: SegKind::ToolResult,
                    role: SegRole::Tool,
                    content: input_json.clone(),
                    age_index: age,
                    tool_name: Some(n),
                },
            );
        },
        ContentBlock::Thinking { thinking } => {
            flush_run(run, out, recent, role, age);
            let tv = str_chars(thinking.as_str());
            let (lo, hi) = trim_range(tv.as_slice(), 0, tv.len());
            assert(tv@.subrange(0, tv@.len() as int) =~= tv@);
            if lo != hi {
                push_seg(out, turn_seg(recent, SegRole::Assistant, thinking.clone(), age));
            } else {
                assert(segs_view(out@) + seq![] =~= segs_view(out@));
            }
        },
        ContentBlock::Image => {
            flush_run(run, out, recent, role, age);
            push_seg(out, turn_seg(recent, role, owned("[image attachment]"), age));
        },
        ContentBlock::Unknown => {
            flush_run(run, out, recent, role, age);
            assert(segs_view(out@) + seq![] =~= segs_view(out@));
        },
    }
    proof {
        let st = block_step((old(run)@, before), block_view(*b), recent, role, age);
        assert(segs_view(out@) =~= st.1);
    }
}

/// Expand one history message into segments (one per text run, tool result, tool use,
/// non-blank thinking block and image).
pub fn push_message_segments_for_history(
    msg: &HistoryMessage,
    msg_idx: usize,
    history_len: usize,
    recent_start: usize,
    out: &mut Vec<SegmentPlan>,
)
    requires
        msg_idx < history_len,
    ensures
        segs_view(final(out)@) == segs_view(old(out)@) + message_segments(
            *msg,
            msg_idx as int,
            history_len as int,
            recent_start as int,
        ),
{
    #[verifier::truncate]
    let age = (history_len - 1 - msg_idx) as u32;
    let recent = msg_idx >= recent_start;
    let role = map_role(msg.role);
    match &msg.content {
        MessageContent::Text(s) => {
            if s.as_str().is_empty() {
                assert(segs_view(out@) + seq![] =~= segs_view(out@));
                return;
            }
            push_seg(out, turn_seg(recent, role, s.clone(), age));
        },
        MessageContent::Blocks(blocks) => {
            let ghost bv = blocks@.map_values(|b: ContentBlock| block_view(b));
            let ghost start = segs_view(out@);
            let mut run: Vec<char> = Vec::new();
            let mut i: usize = 0;
            while i < blocks.len()
                invariant
                    i <= blocks@.len(),
                    bv == blocks@.map_values(|b: ContentBlock| block_view(b)),
                    (run@, segs_view(out@)) == ({
                        let st = blocks_state(bv.take(i as int), recent, role, age);
                        (st.0, start + st.1)
                    }),
                decreases blocks.len() - i,
            {
                proof {
                    assert(bv.take(i + 1).drop_last() =~= bv.take(i as int));
                    assert(bv.take(i + 1).last() == block_view(blocks@[i as int]));
                }
                let ghost before = segs_view(out@);
                let ghost st0 = blocks_state(bv.take(i as int), recent, role, age);
                push_block(&blocks[i], &mut run, out, recent, role, age);
                proof {
                    assert(before == start + st0.1);
                    let st1 = blocks_state(bv.take(i + 1), recent, role, age);
                    assert(st1 == block_step(st0, block_view(blocks@[i as int]), recent, role, age));
                    assert(segs_view(out@) =~= start + st1.1);
                }
                i = i + 1;
            }
            assert(bv.take(blocks@.len() as int) =~= bv);
            let ghost mid = segs_view(out@);
            flush_run(&mut run, out, recent, role, age);
            assert(segs_view(out@) =~= start + (blocks_state(bv, recent, role, age).1 + flushed(
                blocks_state(bv, recent, role, age).0,
                recent,
                role,
                age,
            )));
        },
    }
}

// ---------------------------------------------------------------------------
// Whole windows
// ---------------------------------------------------------------------------

/// The current user message as a segment.
pub open spec fn user_prompt_seg(c: Seq<char>) -> SegView {
    (SegKind::UserPrompt, SegRole::User, c, 0, None)
}

/// The system prompt as a segment.
pub open spec fn system_seg(c: Seq<char>) -> SegView {
    (SegKind::SystemPrompt, SegRole::System, c, u32::MAX, None)
}

/// The segments of the first `k` history messages.
pub open spec fn history_segs(hist: Seq<HistoryMessage>, k: int, recent_start: int) -> Seq<SegView>
    decreases k,
{
    if k <= 0 {
        seq![]
    } else {
        history_segs(hist, k - 1, recent_start) + message_segments(
            hist[k - 1],
            k - 1,
            hist.len() as int,
            recent_start,
        )
    }
}

/// History and current user segments: a trailing user message leaves the history and is
/// replaced by the current query (or, when that is empty, by its own text, if any); the last
/// four history messages are recent.
pub open spec fn core_segments(messages: Seq<HistoryMessage>, latest: Seq<char>) -> Seq<SegView> {
    let trailing = messages.len() > 0 && messages.last().role == MsgRole::User;
    let hist = if trailing {
        messages.drop_last()
    } else {
        messages
    };
    let rs: int = if hist.len() >= RECENT_TURN_THRESHOLD {
        hist.len() - RECENT_TURN_THRESHOLD
    } else {
        0
    };
    history_segs(hist, hist.len() as int, rs) + if latest.len() > 0 {
        seq![user_prompt_seg(latest)]
    } else if trailing && messages.last().text_content@.len() > 0 {
        seq![user_prompt_seg(messages.last().text_content@)]
    } else {
        seq![]
    }
}

/// Appends the history and current user segments of `messages`.
pub fn history_core_segments(messages: &[HistoryMessage], latest_user_query: &str, out: &mut Vec<SegmentPlan>)
    ensures
        segs_view(final(out)@) == segs_view(old(out)@) + core_segments(messages@, latest_user_query@),
{
    let n = messages.len();
    let trailing_is_user = n > 0 && messages[n - 1].role == MsgRole::User;
    let history_end = if trailing_is_user {
        n - 1
    } else {
        n
    };
    let ghost hist = messages@.take(history_end as int);
    proof {
        if trailing_is_user {
            assert(hist =~= messages@.drop_last());
        } else {
            assert(hist =~= messages@);
        }
    }
    let recent_start: usize = if history_end >= RECENT_TURN_THRESHOLD {
        history_end - RECENT_TURN_THRESHOLD
    } else {
        0
    };
    let ghost start = segs_view(out@);
    let mut idx: usize = 0;
    while idx < history_end
        invariant
            idx <= history_end <= n,
            n == messages@.len(),
            hist == messages@.take(history_end as int),
            segs_view(out@) == start + history_segs(hist, idx as int, recent_start as int),
        decreases history_end - idx,
    {
        let ghost before = segs_view(out@);
        push_message_segments_for_history(&messages[idx], idx, history_end, recent_start, out);
        proof {
            assert(hist[idx as int] == messages@[idx as int]);
            assert(segs_view(out@) =~= start + history_segs(hist, idx + 1, recent_start as int));
        }
        idx = idx + 1;
    }
    let ghost mid = segs_view(out@);
    if !latest_user_query.is_empty() {
        push_seg(
            out,
            SegmentPlan {
                kind: SegKind::UserPrompt,
                role: SegRole::User,
                content: owned(latest_user_query),
                age_index: 0,
                tool_name: None,
            },
        );
    } else if trailing_is_user && !messages[n - 1].text_content.as_str().is_empty() {
        push_seg(
            out,
            SegmentPlan {
                kind: SegKind::UserPrompt,
                role: SegRole::User,
                content: messages[n - 1].text_content.clone(),
                age_index: 0,
                tool_name: None,
            },
        );
    }
    proof {
        assert(segs_view(out@) =~= start + core_segments(messages@, latest_user_query@));
    }
}

/// The system prompt (when non-empty) followed by history and user segments.
pub open spec fn window_segments(system_prompt: Seq<char>, messages: Seq<HistoryMessage>, latest: Seq<char>) -> Seq<SegView> {
    (if system_prompt.len() > 0 {
        seq![system_seg(system_prompt)]
    } else {
        seq![]
    }) + core_segments(messages, latest)
}

/// Segments for a system prompt and the assembled message list.
pub fn build_segments(system_prompt: &str, messages: &[HistoryMessage], latest_user_query: &str) -> (r: Vec<SegmentPlan>)
    ensures
        segs_view(r@) == window_segments(system_prompt@, messages@, latest_user_query@),
{
    let mut segments: Vec<SegmentPlan> = Vec::new();
    if !system_prompt.is_empty() {
        push_seg(
            &mut segments,
            SegmentPlan {
                kind: SegKind::SystemPrompt,
                role: SegRole::System,
                content: owned(system_prompt),
                age_index: u32::MAX,
                tool_name: None,
            },
        );
    }
    assert(segs_view(segments@) =~= if system_prompt@.len() > 0 {
        seq![system_seg(system_prompt@)]
    } else {
        Seq::<SegView>::empty()
    });
    history_core_segments(messages, latest_user_query, &mut segments);
    segments
}

/// History and user segments without a system segment.
pub fn build_history_user_segments(messages: &[HistoryMessage], latest_user_query: &str) -> (r: Vec<SegmentPlan>)
    ensures
        segs_view(r@) == core_segments(messages@, latest_user_query@),
{
    let mut segments: Vec<SegmentPlan> = Vec::new();
    assert(segs_view(segments@) =~= Seq::<SegView>::empty());
    history_core_segments(messages, latest_user_query, &mut segments);
    assert(segs_view(segments@) =~= core_segments(messages@, latest_user_query@));
    segments
}

/// `seg` placed right after a leading system segment, or first.
pub open spec fn with_failure_recall(segs: Seq<SegView>, seg: SegView) -> Seq<SegView> {
    if segs.len() > 0 && segs[0].0 == SegKind::SystemPrompt {
        segs.insert(1, seg)
    } else {
        segs.insert(0, seg)
    }
}

/// Inserts a failure-recall segment after the system segment (or first when there is none).
pub fn insert_failure_recall_after_system(segments: &mut Vec<SegmentPlan>, seg: SegmentPlan)
    ensures
        segs_view(final(segments)@) == with_failure_recall(segs_view(old(segments)@), seg_view(seg)),
{
    let ghost v = seg_view(seg);
    let first_is_system = segments.len() > 0 && segments[0].kind == SegKind::SystemPrompt;
    if first_is_system {
        segments.insert(1, seg);
    } else {
        segments.insert(0, seg);
    }
    proof {
        let pos: int = if first_is_system {
            1
        } else {
            0
        };
        assert(segs_view(segments@) =~= segs_view(old(segments)@).insert(pos, v));
    }
}

/// The compiler-root layout: system, optional failure recall, graph-memory blocks, then
/// history and user.
pub open spec fn compiler_root_segments(
    system_base: Seq<char>,
    graph: Seq<SegView>,
    messages: Seq<HistoryMessage>,
    latest: Seq<char>,
    failure_recall: Option<SegView>,
) -> Seq<SegView> {
    let base: Seq<SegView> = if system_base.len() > 0 {
        seq![system_seg(system_base)]
    } else {
        seq![]
    };
    let with_recall = match failure_recall {
        Some(f) => with_failure_recall(base, f),
        None => base,
    };
    with_recall + graph + core_segments(messages, latest)
}

fn clone_seg(s: &SegmentPlan) -> (r: SegmentPlan)
    ensures
        seg_view(r) == seg_view(*s),
{
    SegmentPlan {
        kind: s.kind,
        role: s.role,
        content: s.content.clone(),
        age_index: s.age_index,
        tool_name: match &s.tool_name {
            Some(t) => Some(t.clone()),
            None => None,
        },
    }
}

/// Segments in the compiler-root layout.
pub fn build_segments_compiler_root(
    system_base: &str,
    graph_memory_blocks: &[SegmentPlan],
    messages: &[HistoryMessage],
    latest_user_query: &str,
    failure_recall: Option<SegmentPlan>,
) -> (r: Vec<SegmentPlan>)
    ensures
        segs_view(r@) == compiler_root_segments(
            system_base@,
            segs_view(graph_memory_blocks@),
            messages@,
            latest_user_query@,
            match failure_recall {
                Some(f) => Some(seg_view(f)),
                None => None,
            },
        ),
{
    let mut segments: Vec<SegmentPlan> = Vec::new();
    if !system_base.is_empty() {
        push_seg(
            &mut segments,
            SegmentPlan {
                kind: SegKind::SystemPrompt,
                role: SegRole::System,
                content: owned(system_base),
                age_index: u32::MAX,
                tool_name: None,
            },
        );
    }
    assert(segs_view(segments@) =~= if system_base@.len() > 0 {
        seq![system_seg(system_base@)]
    } else {
        Seq::<SegView>::empty()
    });
    match failure_recall {
        Some(fr) => insert_failure_recall_after_system(&mut segments, fr),
        None => {},
    }
    let ghost prefix = segs_view(segments@);
    let ghost gv = segs_view(graph_memory_blocks@);
    let mut i: usize = 0;
    while i < graph_memory_blocks.len()
        invariant
            i <= graph_memory_blocks@.len(),
            gv == segs_view(graph_memory_blocks@),
            segs_view(segments@) == prefix + gv.take(i as int),
        decreases graph_memory_blocks.len() - i,
    {
        push_seg(&mut segments, clone_seg(&graph_memory_blocks[i]));
        assert(gv.take(i + 1) =~= gv.take(i as int).push(gv[i as int]));
        i = i + 1;
    }
    assert(gv.take(graph_memory_blocks@.len() as int) =~= gv);
    history_core_segments(messages, latest_user_query, &mut segments);
    segments
}

// ---------------------------------------------------------------------------
// Composed segments back to a prompt
// ---------------------------------------------------------------------------

/// The message role a composed segment is sent with (tool output goes in as user context).
pub open spec fn msg_role_for(r: SegRole) -> MsgRole {
    match r {
        SegRole::System => MsgRole::System,
        SegRole::User => MsgRole::User,
        SegRole::Assistant => MsgRole::Assistant,
        SegRole::Tool => MsgRole::User,
    }
}

/// Map a compiler role to the role of the message it becomes.
pub fn map_cc_role_to_message(role: SegRole) -> (r: MsgRole)
    ensures
        r == msg_role_for(role),
{
    match role {
        SegRole::System => MsgRole::System,
        SegRole::User => MsgRole::User,
        SegRole::Assistant => MsgRole::Assistant,
        SegRole::Tool => MsgRole::User,
    }
}

/// After the given composed segments: the system parts and the messages. Blank segments are
/// dropped; system-prompt segments and system-role segments go to the system prompt.
pub open spec fn composed_state(segs: Seq<SegView>) -> (Seq<Seq<char>>, Seq<(MsgRole, Seq<char>)>)
    decreases segs.len(),
{
    if segs.len() == 0 {
        (seq![], seq![])
    } else {
        let (parts, msgs) = composed_state(segs.drop_last());
        let s = segs.last();
        if trim(s.2).len() == 0 {
            (parts, msgs)
        } else if s.0 == SegKind::SystemPrompt || s.1 == SegRole::System {
            (parts.push(s.2), msgs)
        } else {
            (parts, msgs.push((msg_role_for(s.1), s.2)))
        }
    }
}

/// The system prompt (the system parts joined by blank lines, or the fallback) and the
/// messages of a composed window; `None` when both are empty.
pub open spec fn composed_prompt(segs: Seq<SegView>, fallback: Seq<char>) -> Option<(Seq<char>, Seq<(MsgRole, Seq<char>)>)> {
    let (parts, msgs) = composed_state(segs);
    let system = if parts.len() == 0 {
        fallback
    } else {
        join(parts, "\n\n"@)
    };
    if system.len() == 0 && msgs.len() == 0 {
        None
    } else {
        Some((system, msgs))
    }
}

/// The views of composed messages.
pub open spec fn msgs_view(v: Seq<(MsgRole, String)>) -> Seq<(MsgRole, Seq<char>)> {
    v.map_values(|m: (MsgRole, String)| (m.0, m.1@))
}

/// Convert composed segments to a system prompt and messages for the driver.
pub fn map_composed_to_system_and_messages(segments: &[SegmentPlan], system_fallback: &str) -> (r: Option<(String, Vec<(MsgRole, String)>)>)
    ensures
        match r {
            Some((s, m)) => composed_prompt(segs_view(segments@), system_fallback@) == Some((s@, msgs_view(m@))),
            None => composed_prompt(segs_view(segments@), system_fallback@) is None,
        },
{
    let ghost sv = segs_view(segments@);
    let mut parts: Vec<Vec<char>> = Vec::new();
    let mut out: Vec<(MsgRole, String)> = Vec::new();
    let mut i: usize = 0;
    while i < segments.len()
        invariant
            i <= segments@.len(),
            sv == segs_view(segments@),
            (crate::tool_recovery::char_views(parts@), msgs_view(out@)) == composed_state(sv.take(i as int)),
        decreases segments.len() - i,
    {
        proof {
            assert(sv.take(i + 1).drop_last() =~= sv.take(i as int));
            assert(sv.take(i + 1).last() == seg_view(segments@[i as int]));
        }
        let c = str_chars(segments[i].content.as_str());
        let (a, b) = trim_range(c.as_slice(), 0, c.len());
        assert(c@.subrange(0, c@.len() as int) =~= c@);
        if a != b {
            if segments[i].kind == SegKind::SystemPrompt || segments[i].role == SegRole::System {
                let ghost pv = crate::tool_recovery::char_views(parts@);
                parts.push(c);
                assert(crate::tool_recovery::char_views(parts@) =~= pv.push(segments@[i as int].content@));
            } else {
                let ghost mv = msgs_view(out@);
                let m = (map_cc_role_to_message(segments[i].role), segments[i].content.clone());
                out.push(m);
                assert(msgs_view(out@) =~= mv.push((m.0, m.1@)));
            }
        }
        i = i + 1;
    }
    assert(sv.take(segments@.len() as int) =~= sv);
    let system: Vec<char> = if parts.len() == 0 {
        str_chars(system_fallback)
    } else {
        crate::tool_errors::join_chars_pub(&parts, "\n\n")
    };
    if system.len() == 0 && out.len() == 0 {
        return None;
    }
    Some((chars_to_string(system.as_slice()), out))
}

} // verus!
