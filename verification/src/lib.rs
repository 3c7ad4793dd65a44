//! Verified policy and text-processing core of the agent runtime.

pub mod text;
pub mod pattern;
pub mod agent_map;
pub mod concurrent_map;
pub mod tool_round;
pub mod github;
pub mod turn_payload;
pub mod eco_mode;
pub mod agent_policy;
pub mod browser_mode;
pub mod compose_telemetry;
pub mod eco_telemetry;
pub mod llm_metrics;
pub mod compression;
pub mod tool_recovery;
pub mod llm_retry;
pub mod tool_errors;
pub mod compose_segments;
pub mod semantic_tags;
pub mod loop_control;
pub mod inbox;
pub mod anchor_summary;
pub mod runtime_bridge;
pub mod eco_counterfactual;
pub mod cli_probe;
pub mod project_ema;
pub mod workspace_policy;
pub mod browser_launch;
pub mod document_format;
pub mod compose_window;
pub mod turn_context;
pub mod browser_session;
pub mod native_infer;
