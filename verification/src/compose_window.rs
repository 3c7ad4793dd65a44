//! One turn of whole-prompt compose telemetry: which layout the window is measured in, and,
//! once the context compiler has composed it, whether the turn is recorded and whether the
//! composed window replaces the prompt sent to the model.

use vstd::prelude::*;
use crate::compose_segments::{
    build_segments, build_segments_compiler_root, compiler_root_segments, composed_prompt,
    insert_failure_recall_after_system, map_composed_to_system_and_messages, msgs_view, seg_view,
    segs_view, window_segments, with_failure_recall, HistoryMessage, MessageContent, MsgRole,
    SegView, SegmentPlan,
};
use crate::compose_telemetry::{record_compose_turn, ComposeStore};

verus! {

/// The compiler-root layout is used when graph memory is measured as segments (the
/// environment switch), a base system prompt is given and there are graph blocks.
pub open spec fn root_layout(graph_env: bool, base: Option<Seq<char>>, graph: Option<Seq<SegView>>) -> bool {
    graph_env && base is Some && match graph {
        Some(g) => g.len() > 0,
        None => false,
    }
}

/// The segments of the window for this turn.
pub open spec fn turn_window(
    system_prompt: Seq<char>,
    messages: Seq<HistoryMessage>,
    latest: Seq<char>,
    failure_recall: Option<SegView>,
    graph: Option<Seq<SegView>>,
    base: Option<Seq<char>>,
    graph_env: bool,
) -> Seq<SegView> {
    if root_layout(graph_env, base, graph) {
        compiler_root_segments(
            match base {
                Some(b) => b,
                None => seq![],
            },
            match graph {
                Some(g) => g,
                None => seq![],
            },
            messages,
            latest,
            failure_recall,
        )
    } else {
        let s = window_segments(system_prompt, messages, latest);
        match failure_recall {
            Some(f) => with_failure_recall(s, f),
            None => s,
        }
    }
}

/// The segments of the window to measure this turn: the compiler-root layout (base system,
/// failure recall, graph blocks, history, user) when it applies, else the host prompt's
/// layout with the failure recall placed after the system segment.
pub fn compose_window_segments(
    system_prompt: &str,
    messages: &[HistoryMessage],
    latest_user_query: &str,
    failure_recall: Option<SegmentPlan>,
    graph_blocks: Option<&[SegmentPlan]>,
    system_base: Option<&str>,
    graph_env: bool,
) -> (r: Vec<SegmentPlan>)
    ensures
        segs_view(r@) == turn_window(
            system_prompt@,
            messages@,
            latest_user_query@,
            match failure_recall {
                Some(f) => Some(seg_view(f)),
                None => None,
            },
            match graph_blocks {
                Some(g) => Some(segs_view(g@)),
                None => None,
            },
            match system_base {
                Some(b) => Some(b@),
                None => None,
            },
            graph_env,
        ),
{
    let root = graph_env && system_base.is_some() && match graph_blocks {
        Some(g) => g.len() > 0,
        None => false,
    };
    if root {
        let base: &str = match system_base {
            Some(b) => b,
            None => "",
        };
        let g: &[SegmentPlan] = match graph_blocks {
            Some(g) => g,
            None => &[],
        };
        build_segments_compiler_root(base, g, messages, latest_user_query, failure_recall)
    } else {
        let mut s = build_segments(system_prompt, messages, latest_user_query);
        match failure_recall {
            Some(fr) => insert_failure_recall_after_system(&mut s, fr),
            None => {},
        }
        s
    }
}

/// Every message of the history is plain text.
pub open spec fn text_only(messages: Seq<HistoryMessage>) -> bool {
    forall|i: int| 0 <= i < messages.len() ==> (#[trigger] messages[i]).content is Text
}

/// Whether every message of the history is plain text.
pub fn history_is_text_only(messages: &[HistoryMessage]) -> (r: bool)
    ensures
        r == text_only(messages@),
{
    let mut i: usize = 0;
    while i < messages.len()
        invariant
            i <= messages@.len(),
            forall|k: int| 0 <= k < i ==> (#[trigger] messages@[k]).content is Text,
        decreases messages.len() - i,
    {
        match &messages[i].content {
            MessageContent::Text(_) => {},
            MessageContent::Blocks(_) => {
                return false;
            },
        }
        i = i + 1;
    }
    true
}

/// The prompt that replaces the host's after composing: only when applying is switched on,
/// the history is plain text, and the composed window maps to a prompt with messages.
pub open spec fn replacement(
    apply_env: bool,
    text_only: bool,
    composed: Seq<SegView>,
    fallback: Seq<char>,
) -> Option<(Seq<char>, Seq<(MsgRole, Seq<char>)>)> {
    if !apply_env || !text_only {
        None
    } else {
        match composed_prompt(composed, fallback) {
            Some((s, m)) => if m.len() > 0 {
                Some((s, m))
            } else {
                None
            },
            None => None,
        }
    }
}

/// After the compiler composed the window: records the turn's token counts and tier for
/// `agent_id` (unless the original estimate is zero, which records nothing), and returns the
/// system prompt and messages that replace the host's, when they do.
pub fn process_compose_telemetry_for_turn(
    store: &mut ComposeStore,
    agent_id: &str,
    original_tokens: u64,
    compressed_tokens: u64,
    tier: &str,
    apply_env: bool,
    history_text_only: bool,
    composed: &[SegmentPlan],
    system_fallback: &str,
) -> (r: Option<(String, Vec<(MsgRole, String)>)>)
    ensures
        original_tokens == 0 ==> final(store).view() == old(store).view() && r is None,
        original_tokens > 0 ==> final(store).view() == old(store).view().insert(
            agent_id@,
            (original_tokens, compressed_tokens, tier@),
        ),
        original_tokens > 0 ==> match r {
            Some((s, m)) => replacement(apply_env, history_text_only, segs_view(composed@), system_fallback@)
                == Some((s@, msgs_view(m@))),
            None => replacement(apply_env, history_text_only, segs_view(composed@), system_fallback@) is None,
        },
{
    if original_tokens == 0 {
        return None;
    }
    record_compose_turn(store, agent_id, original_tokens, compressed_tokens, tier);
    if !apply_env || !history_text_only {
        return None;
    }
    match map_composed_to_system_and_messages(composed, system_fallback) {
        Some((s, m)) => if m.len() > 0 {
            Some((s, m))
        } else {
            None
        },
        None => None,
    }
}

} // verus!
