//! Shared policy for one LLM-declared tool round: lane classification,
//! side-effect-safe deduplication, and ordered batching.

use vstd::prelude::*;
use std::ops::Range;
use crate::text::{contains, contains_str, eq_str, starts_with, starts_with_str, str_chars};

verus! {

/// Execution lane for a tool call within one assistant `tool_use` round.
#[derive(Debug, Clone, Copy, PartialEq, Eq, Structural)]
pub enum ToolExecutionLane {
    /// Read-only calls can run concurrently with adjacent read-only calls.
    ReadParallel,
    /// Workspace/file mutations must stay in LLM-declared order.
    WorkspaceMutationSerial,
    /// Shell/process lifecycle tools must stay in order to avoid races.
    ProcessSerial,
    /// External side effects (messages, posts, AINL runs, delegated agents) must stay in order.
    ExternalSideEffectSerial,
}

impl ToolExecutionLane {
    /// True exactly for the read-only lane.
    pub fn is_parallel_read(self) -> (r: bool)
        ensures
            r == (self == ToolExecutionLane::ReadParallel),
    {
        matches!(self, ToolExecutionLane::ReadParallel)
    }
}

/// Tool names that are known to be read-only.
pub open spec fn known_read_tool(name: Seq<char>) -> bool {
    ||| name == "file_read"@
    ||| name == "file_list"@
    ||| name == "document_extract"@
    ||| name == "mcp_resource_read"@
    ||| name == "web_search"@
    ||| name == "web_fetch"@
    ||| name == "web_scrape"@
    ||| name == "web_get"@
    ||| name == "mcp_ainl_ainl_validate"@
    ||| name == "mcp_ainl_ainl_compile"@
    ||| name == "mcp_ainl_ainl_capabilities"@
    ||| name == "mcp_ainl_ainl_security_report"@
    ||| name == "mcp_ainl_ainl_ir_diff"@
    ||| name == "mcp_ainl_ainl_ptc_signature_check"@
}

/// Tool names that mutate the workspace.
pub open spec fn workspace_mutation_tool(name: Seq<char>) -> bool {
    ||| name == "file_write"@
    ||| name == "apply_patch"@
    ||| name == "workspace_action"@
    ||| name == "script_run"@
}

/// Tool names that manage shell processes.
pub open spec fn process_tool(name: Seq<char>) -> bool {
    ||| name == "shell_exec"@
    ||| name == "process_start"@
    ||| name == "process_kill"@
    ||| name == "process_list"@
}

/// Names that look like external side effects (messaging, posting, delegation, AINL runs).
pub open spec fn external_effect_name(name: Seq<char>) -> bool {
    ||| starts_with(name, "channel_"@)
    ||| starts_with(name, "agent_"@)
    ||| name == "mcp_ainl_ainl_run"@
    ||| contains(name, "send"@)
    ||| contains(name, "post"@)
    ||| contains(name, "publish"@)
}

/// The lane of a tool call named `name`.
pub open spec fn lane_of(name: Seq<char>) -> ToolExecutionLane {
    if known_read_tool(name) {
        ToolExecutionLane::ReadParallel
    } else if workspace_mutation_tool(name) {
        ToolExecutionLane::WorkspaceMutationSerial
    } else if process_tool(name) {
        ToolExecutionLane::ProcessSerial
    } else if external_effect_name(name) {
        ToolExecutionLane::ExternalSideEffectSerial
    } else {
        ToolExecutionLane::ReadParallel
    }
}

/// Batches of a round: consecutive parallel-read calls share a batch, every other call
/// is alone, and batches cover the round in order.
pub open spec fn is_batching(lanes: Seq<ToolExecutionLane>, r: Seq<Range<usize>>) -> bool {
    &&& lanes.len() == 0 <==> r.len() == 0
    &&& r.len() > 0 ==> r[0].start == 0 && r.last().end == lanes.len()
    &&& forall|k: int| 0 <= k < r.len() ==> (#[trigger] r[k]).start < r[k].end
    &&& forall|k: int| 0 <= k < r.len() - 1 ==> (#[trigger] r[k]).end == r[k + 1].start
    &&& forall|k: int, i: int|
        0 <= k < r.len() && (#[trigger] r[k]).start <= i < r[k].end && r[k].end - r[k].start > 1
            ==> #[trigger] lanes[i] == ToolExecutionLane::ReadParallel
    &&& forall|k: int|
        0 <= k < r.len() && lanes[(#[trigger] r[k]).start as int]
            != ToolExecutionLane::ReadParallel ==> r[k].end == r[k].start + 1
    &&& forall|k: int|
        0 <= k < r.len() - 1 ==> !(lanes[(#[trigger] r[k]).end - 1]
            == ToolExecutionLane::ReadParallel && lanes[r[k].end as int]
            == ToolExecutionLane::ReadParallel)
}

/// Unit type for the tool-round policy functions.
pub struct ToolRoundExecutor;

impl ToolRoundExecutor {
    /// Lane for a tool name: known read-only tools run in parallel; file mutations,
    /// process tools, and external side effects (`channel_*`, `agent_*`, AINL runs, names
    /// containing `send`/`post`/`publish`) are serial; anything else is treated as a read.
    pub fn classify_lane(tool_name: &str) -> (r: ToolExecutionLane)
        ensures
            r == lane_of(tool_name@),
    {
        let n = str_chars(tool_name);
        let s = n.as_slice();
        if eq_str(s, "file_read") || eq_str(s, "file_list") || eq_str(s, "document_extract")
            || eq_str(s, "mcp_resource_read") || eq_str(s, "web_search") || eq_str(s, "web_fetch")
            || eq_str(s, "web_scrape") || eq_str(s, "web_get") || eq_str(
            s,
            "mcp_ainl_ainl_validate",
        ) || eq_str(s, "mcp_ainl_ainl_compile") || eq_str(s, "mcp_ainl_ainl_capabilities")
            || eq_str(s, "mcp_ainl_ainl_security_report") || eq_str(s, "mcp_ainl_ainl_ir_diff")
            || eq_str(s, "mcp_ainl_ainl_ptc_signature_check") {
            ToolExecutionLane::ReadParallel
        } else if eq_str(s, "file_write") || eq_str(s, "apply_patch") || eq_str(
            s,
            "workspace_action",
        ) || eq_str(s, "script_run") {
            ToolExecutionLane::WorkspaceMutationSerial
        } else if eq_str(s, "shell_exec") || eq_str(s, "process_start") || eq_str(
            s,
            "process_kill",
        ) || eq_str(s, "process_list") {
            ToolExecutionLane::ProcessSerial
        } else if starts_with_str(s, "channel_") || starts_with_str(s, "agent_") || eq_str(
            s,
            "mcp_ainl_ainl_run",
        ) || contains_str(s, "send") || contains_str(s, "post") || contains_str(s, "publish") {
            ToolExecutionLane::ExternalSideEffectSerial
        } else {
            ToolExecutionLane::ReadParallel
        }
    }

    /// Only read-only tools may be deduplicated within a round.
    pub fn safe_to_deduplicate(tool_name: &str) -> (r: bool)
        ensures
            r == (lane_of(tool_name@) == ToolExecutionLane::ReadParallel),
    {
        Self::classify_lane(tool_name).is_parallel_read()
    }

    /// Batches for a round whose calls have the given lanes, in order.
    pub fn batches_for_lanes(lanes: &[ToolExecutionLane]) -> (r: Vec<Range<usize>>)
        ensures
            is_batching(lanes@, r@),
    {
        let n = lanes.len();
        let mut batches: Vec<Range<usize>> = Vec::new();
        let mut idx: usize = 0;
        while idx < n
            invariant
                n == lanes@.len(),
                idx <= n,
                idx == 0 <==> batches@.len() == 0,
                batches@.len() > 0 ==> batches@[0].start == 0 && batches@.last().end == idx,
                forall|k: int| 0 <= k < batches@.len() ==> (#[trigger] batches@[k]).start < batches@[k].end,
                forall|k: int|
                    0 <= k < batches@.len() - 1 ==> (#[trigger] batches@[k]).end == batches@[k
                        + 1].start,
                forall|k: int, i: int|
                    0 <= k < batches@.len() && (#[trigger] batches@[k]).start <= i < batches@[k].end
                        && batches@[k].end - batches@[k].start > 1 ==> #[trigger] lanes@[i]
                        == ToolExecutionLane::ReadParallel,
                forall|k: int|
                    0 <= k < batches@.len() && lanes@[(#[trigger] batches@[k]).start as int]
                        != ToolExecutionLane::ReadParallel ==> batches@[k].end == batches@[k].start
                        + 1,
                forall|k: int|
                    0 <= k < batches@.len() - 1 ==> !(lanes@[(#[trigger] batches@[k]).end - 1]
                        == ToolExecutionLane::ReadParallel && lanes@[batches@[k].end as int]
                        == ToolExecutionLane::ReadParallel),
                batches@.len() > 0 && idx < n ==> !(lanes@[idx - 1] == ToolExecutionLane::ReadParallel
                    && lanes@[idx as int] == ToolExecutionLane::ReadParallel),
            decreases n - idx,
        {
            let ghost old_b = batches@;
            if lanes[idx].is_parallel_read() {
                let start = idx;
                idx = idx + 1;
                while idx < n && lanes[idx].is_parallel_read()
                    invariant
                        n == lanes@.len(),
                        start < idx <= n,
                        forall|i: int| start <= i < idx ==> lanes@[i] == ToolExecutionLane::ReadParallel,
                    decreases n - idx,
                {
                    idx = idx + 1;
                }
                batches.push(Range { start, end: idx });
            } else {
                batches.push(Range { start: idx, end: idx + 1 });
                idx = idx + 1;
            }
            assert(forall|k: int| 0 <= k < old_b.len() ==> batches@[k] == old_b[k]);
        }
        batches
    }

    /// Build ordered batches. Consecutive read-only calls share one batch; every
    /// side-effecting call is isolated in its own batch. Batch order always matches the
    /// original tool order. `lane_of` is asked once per item.
    pub fn ordered_batches<T, F: Fn(&T) -> ToolExecutionLane>(items: &[T], lane_of: F) -> (r: Vec<
        Range<usize>,
    >)
        requires
            forall|i: int| 0 <= i < items@.len() ==> call_requires(lane_of, (&items@[i],)),
        ensures
            exists|lanes: Seq<ToolExecutionLane>|
                {
                    &&& lanes.len() == items@.len()
                    &&& forall|i: int|
                        0 <= i < items@.len() ==> call_ensures(
                            lane_of,
                            (&items@[i],),
                            #[trigger] lanes[i],
                        )
                    &&& is_batching(lanes, r@)
                },
    {
        let mut lanes: Vec<ToolExecutionLane> = Vec::new();
        let mut i: usize = 0;
        while i < items.len()
            invariant
                i <= items@.len(),
                lanes@.len() == i,
                forall|j: int| 0 <= j < items@.len() ==> call_requires(lane_of, (&items@[j],)),
                forall|j: int|
                    0 <= j < i ==> call_ensures(lane_of, (&items@[j],), #[trigger] lanes@[j]),
            decreases items.len() - i,
        {
            let l = lane_of(&items[i]);
            lanes.push(l);
            i = i + 1;
        }
        let r = Self::batches_for_lanes(lanes.as_slice());
        assert(is_batching(lanes@, r@));
        r
    }
}

} // verus!
