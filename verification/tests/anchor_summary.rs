use openfang_runtime::anchor_summary::{
    seg_kind_label, to_prompt_text, AnchoredSummary, HeuristicAnchorSummarizer, SummarySection,
};
use openfang_runtime::compose_segments::{SegKind, SegRole, SegmentPlan};

fn older_turn(content: &str, age: u32) -> SegmentPlan {
    SegmentPlan {
        kind: SegKind::OlderTurn,
        role: SegRole::Assistant,
        content: content.to_string(),
        age_index: age,
        tool_name: None,
    }
}

#[test]
fn heuristic_fills_current_state() {
    let s = HeuristicAnchorSummarizer;
    let segs = [older_turn("dropped", 2)];
    let out = s.summarize(&segs, None);
    let st = out.sections.iter().find(|x| x.id == "current_state").expect("section");
    assert!(st.content.contains("older_turn"), "{}", st.content);
    assert!(st.content.contains("dropped"), "{}", st.content);
}

#[test]
fn summary_counts_iterations_and_tokens() {
    let s = HeuristicAnchorSummarizer;
    let segs = [older_turn("a", 1), older_turn("b", 0)];
    let first = s.summarize(&segs, None);
    assert_eq!(first.iteration, 1);
    let st = first.sections.iter().find(|x| x.id == "current_state").unwrap();
    assert_eq!(st.content, "[older_turn] a\n\n[older_turn] b");
    let text = to_prompt_text(&first.sections);
    assert_eq!(text, "## Current state\n[older_turn] a\n\n[older_turn] b");
    assert_eq!(first.token_estimate, text.len() / 4 + 1);
    let second = s.summarize(&[], Some(&first));
    assert_eq!(second.iteration, 2);
    let st2 = second.sections.iter().find(|x| x.id == "current_state").unwrap();
    assert_eq!(st2.content, "");
}

#[test]
fn prompt_text_skips_blank_sections() {
    let secs = vec![
        SummarySection { id: "intent".into(), label: "Intent".into(), content: "  ship it ".into() },
        SummarySection { id: "decisions".into(), label: "Decisions".into(), content: "   ".into() },
        SummarySection { id: "x".into(), label: "X".into(), content: "y".into() },
    ];
    assert_eq!(to_prompt_text(&secs), "## Intent\nship it\n\n## X\ny");
    let empty = AnchoredSummary::empty();
    assert_eq!(empty.sections.len(), 5);
    assert_eq!(to_prompt_text(&empty.sections), "");
    assert_eq!(seg_kind_label(SegKind::AnchoredSummaryRecall), "anchored_summary_recall");
}
