use openfang_runtime::tool_round::{ToolExecutionLane, ToolRoundExecutor};

#[test]
fn classifies_mutations_and_processes_as_serial() {
    assert_eq!(
        ToolRoundExecutor::classify_lane("file_write"),
        ToolExecutionLane::WorkspaceMutationSerial
    );
    assert_eq!(
        ToolRoundExecutor::classify_lane("shell_exec"),
        ToolExecutionLane::ProcessSerial
    );
    assert_eq!(
        ToolRoundExecutor::classify_lane("channel_send"),
        ToolExecutionLane::ExternalSideEffectSerial
    );
}

#[test]
fn batches_adjacent_reads_but_isolates_side_effects() {
    let tools = vec![
        "file_read",
        "mcp_ainl_ainl_validate",
        "file_write",
        "file_read",
        "shell_exec",
        "web_fetch",
        "web_search",
    ];
    let batches =
        ToolRoundExecutor::ordered_batches(&tools, |name| ToolRoundExecutor::classify_lane(name));
    assert_eq!(batches, vec![0..2, 2..3, 3..4, 4..5, 5..7]);
}

#[test]
fn dedup_policy_only_allows_read_parallel_tools() {
    assert!(ToolRoundExecutor::safe_to_deduplicate("file_read"));
    assert!(ToolRoundExecutor::safe_to_deduplicate("mcp_ainl_ainl_validate"));
    assert!(!ToolRoundExecutor::safe_to_deduplicate("file_write"));
    assert!(!ToolRoundExecutor::safe_to_deduplicate("mcp_ainl_ainl_run"));
}

#[test]
fn empty_round_has_no_batches() {
    let tools: Vec<&str> = Vec::new();
    let batches =
        ToolRoundExecutor::ordered_batches(&tools, |name| ToolRoundExecutor::classify_lane(name));
    assert!(batches.is_empty());
}

#[test]
fn all_reads_share_one_batch() {
    let tools = vec!["file_read", "web_search", "file_list"];
    let batches =
        ToolRoundExecutor::ordered_batches(&tools, |name| ToolRoundExecutor::classify_lane(name));
    assert_eq!(batches, vec![0..3]);
    assert!(ToolRoundExecutor::classify_lane("file_read").is_parallel_read());
    assert!(!ToolExecutionLane::ProcessSerial.is_parallel_read());
}
