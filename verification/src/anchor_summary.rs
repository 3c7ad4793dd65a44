//! A running summary anchored to fixed sections, and the in-process summarizer that rolls
//! dropped prompt segments into its `current_state` section without a model call.

use vstd::prelude::*;
use crate::compose_segments::{seg_view, segs_view, SegKind, SegView, SegmentPlan};
use crate::text::{append_chars, append_str, chars_to_string, owned, str_chars, sub_vec, trim, trim_range};
use crate::tool_errors::{join, join_chars_pub};
use crate::tool_recovery::char_views;

verus! {

/// One named section of a summary.
pub struct SummarySection {
    /// Stable id (for example `intent`).
    pub id: String,
    /// Label shown in prompts and dashboards.
    pub label: String,
    /// Content; may be empty.
    pub content: String,
}

/// A structured running summary.
pub struct AnchoredSummary {
    pub schema_version: u32,
    /// The fixed sections, in prompt order.
    pub sections: Vec<SummarySection>,
    /// Token estimate of the rendered summary.
    pub token_estimate: usize,
    /// How many times the summary was re-anchored.
    pub iteration: u32,
}

/// A section's view: id, label, content.
pub open spec fn section_view(s: SummarySection) -> (Seq<char>, Seq<char>, Seq<char>) {
    (s.id@, s.label@, s.content@)
}

/// The views of sections.
pub open spec fn sections_view(v: Seq<SummarySection>) -> Seq<(Seq<char>, Seq<char>, Seq<char>)> {
    v.map_values(|s: SummarySection| section_view(s))
}

/// The sections of a fresh summary.
pub open spec fn empty_sections() -> Seq<(Seq<char>, Seq<char>, Seq<char>)> {
    seq![
        ("intent"@, "Intent"@, ""@),
        ("decisions"@, "Decisions"@, ""@),
        ("files_touched"@, "Files touched"@, ""@),
        ("pending_tasks"@, "Pending tasks"@, ""@),
        ("current_state"@, "Current state"@, ""@),
    ]
}

/// The summary's schema version.
pub const SUMMARY_SCHEMA_VERSION: u32 = 1;

fn section(id: &str, label: &str) -> (r: SummarySection)
    ensures
        section_view(r) == (id@, label@, ""@),
{
    SummarySection { id: owned(id), label: owned(label), content: owned("") }
}

impl AnchoredSummary {
    /// A summary with the fixed sections, all empty.
    pub fn empty() -> (r: Self)
        ensures
            r.schema_version == SUMMARY_SCHEMA_VERSION,
            sections_view(r.sections@) == empty_sections(),
            r.token_estimate == 0,
            r.iteration == 0,
    {
        let mut v: Vec<SummarySection> = Vec::new();
        v.push(section("intent", "Intent"));
        v.push(section("decisions", "Decisions"));
        v.push(section("files_touched", "Files touched"));
        v.push(section("pending_tasks", "Pending tasks"));
        v.push(section("current_state", "Current state"));
        assert(sections_view(v@) =~= empty_sections());
        AnchoredSummary { schema_version: SUMMARY_SCHEMA_VERSION, sections: v, token_estimate: 0, iteration: 0 }
    }
}

/// The rendered parts of the non-blank sections: `## label`, a newline, the trimmed content.
pub open spec fn prompt_parts(secs: Seq<(Seq<char>, Seq<char>, Seq<char>)>) -> Seq<Seq<char>>
    decreases secs.len(),
{
    if secs.len() == 0 {
        seq![]
    } else {
        let prev = prompt_parts(secs.drop_last());
        let s = secs.last();
        if trim(s.2).len() == 0 {
            prev
        } else {
            prev.push("## "@ + s.1 + "\n"@ + trim(s.2))
        }
    }
}

/// The summary as one text block for prompt injection.
pub open spec fn prompt_text(secs: Seq<(Seq<char>, Seq<char>, Seq<char>)>) -> Seq<char> {
    join(prompt_parts(secs), "\n\n"@)
}

/// Renders the summary's sections as one text block.
pub fn to_prompt_text(sections: &[SummarySection]) -> (r: String)
    ensures
        r@ == prompt_text(sections_view(sections@)),
{
    let ghost sv = sections_view(sections@);
    let mut parts: Vec<Vec<char>> = Vec::new();
    let mut i: usize = 0;
    while i < sections.len()
        invariant
            i <= sections@.len(),
            sv == sections_view(sections@),
            char_views(parts@) == prompt_parts(sv.take(i as int)),
        decreases sections.len() - i,
    {
        proof {
            assert(sv.take(i + 1).drop_last() =~= sv.take(i as int));
            assert(sv.take(i + 1).last() == section_view(sections@[i as int]));
        }
        let c = str_chars(sections[i].content.as_str());
        let (a, b) = trim_range(c.as_slice(), 0, c.len());
        assert(c@.subrange(0, c@.len() as int) =~= c@);
        if a != b {
            let mut part = str_chars("## ");
            append_str(&mut part, sections[i].label.as_str());
            append_str(&mut part, "\n");
            let t = sub_vec(c.as_slice(), a, b);
            append_chars(&mut part, t.as_slice());
            let ghost before = char_views(parts@);
            parts.push(part);
            assert(char_views(parts@) =~= before.push(part@));
        }
        i = i + 1;
    }
    assert(sv.take(sections@.len() as int) =~= sv);
    let j = join_chars_pub(&parts, "\n\n");
    chars_to_string(j.as_slice())
}

/// The telemetry label of a segment kind.
pub open spec fn kind_label(k: SegKind) -> Seq<char> {
    match k {
        SegKind::SystemPrompt => "system_prompt"@,
        SegKind::OlderTurn => "older_turn"@,
        SegKind::RecentTurn => "recent_turn"@,
        SegKind::ToolDefinitions => "tool_definitions"@,
        SegKind::ToolResult => "tool_result"@,
        SegKind::UserPrompt => "user_prompt"@,
        SegKind::AnchoredSummaryRecall => "anchored_summary_recall"@,
        SegKind::MemoryBlock => "memory_block"@,
    }
}

/// The telemetry label of a segment kind.
pub fn seg_kind_label(k: SegKind) -> (r: &'static str)
    ensures
        r@ == kind_label(k),
{
    match k {
        SegKind::SystemPrompt => "system_prompt",
        SegKind::OlderTurn => "older_turn",
        SegKind::RecentTurn => "recent_turn",
        SegKind::ToolDefinitions => "tool_definitions",
        SegKind::ToolResult => "tool_result",
        SegKind::UserPrompt => "user_prompt",
        SegKind::AnchoredSummaryRecall => "anchored_summary_recall",
        SegKind::MemoryBlock => "memory_block",
    }
}

/// A dropped segment as one line of the summary: `[kind] content`.
pub open spec fn seg_line(s: SegView) -> Seq<char> {
    "["@ + kind_label(s.0) + "] "@ + s.2
}

/// The dropped segments rolled into one block, separated by blank lines.
pub open spec fn rolled_segments(segs: Seq<SegView>) -> Seq<char> {
    join(segs.map_values(|s: SegView| seg_line(s)), "\n\n"@)
}

/// The sections with the first `current_state` section's content replaced.
pub open spec fn with_current_state(
    secs: Seq<(Seq<char>, Seq<char>, Seq<char>)>,
    c: Seq<char>,
) -> Seq<(Seq<char>, Seq<char>, Seq<char>)>
    decreases secs.len(),
{
    if secs.len() == 0 {
        secs
    } else if secs[0].0 == "current_state"@ {
        secs.update(0, (secs[0].0, secs[0].1, c))
    } else {
        seq![secs[0]] + with_current_state(secs.drop_first(), c)
    }
}

/// Summarizes dropped segments in process, without a model call.
#[derive(Debug, Clone, Copy)]
pub struct HeuristicAnchorSummarizer;

fn rolled_text(segments: &[SegmentPlan]) -> (r: Vec<char>)
    ensures
        r@ == rolled_segments(segs_view(segments@)),
{
    let ghost lines = segs_view(segments@).map_values(|s: SegView| seg_line(s));
    let mut parts: Vec<Vec<char>> = Vec::new();
    let mut i: usize = 0;
    while i < segments.len()
        invariant
            i <= segments@.len(),
            lines == segs_view(segments@).map_values(|s: SegView| seg_line(s)),
            char_views(parts@) == lines.take(i as int),
        decreases segments.len() - i,
    {
        let mut line = str_chars("[");
        append_str(&mut line, seg_kind_label(segments[i].kind));
        append_str(&mut line, "] ");
        append_str(&mut line, segments[i].content.as_str());
        proof {
            assert(segs_view(segments@)[i as int] == seg_view(segments@[i as int]));
            assert(line@ == lines[i as int]);
        }
        let ghost before = char_views(parts@);
        let ghost lv = line@;
        parts.push(line);
        assert(char_views(parts@) =~= before.push(lv));
        assert(lines.take(i + 1) =~= lines.take(i as int).push(lines[i as int]));
        i = i + 1;
    }
    assert(lines.take(segments@.len() as int) =~= lines);
    join_chars_pub(&parts, "\n\n")
}

fn set_current_state(sections: &mut Vec<SummarySection>, content: &Vec<char>)
    ensures
        sections_view(final(sections)@) == with_current_state(sections_view(old(sections)@), content@),
{
    let ghost sv = sections_view(sections@);
    let mut i: usize = 0;
    assert(sv.skip(0) =~= sv);
    assert(sv.take(0) + with_current_state(sv, content@) =~= with_current_state(sv, content@));
    while i < sections.len()
        invariant
            i <= sections@.len(),
            sv == sections_view(old(sections)@),
            sections@ == old(sections)@,
            forall|k: int| 0 <= k < i ==> sv[k].0 != "current_state"@,
            with_current_state(sv, content@) == sv.take(i as int) + with_current_state(sv.skip(i as int), content@),
        decreases sections.len() - i,
    {
        let id = str_chars(sections[i].id.as_str());
        proof {
            assert(sv.skip(i as int)[0] == sv[i as int]);
            assert(sv.skip(i as int).drop_first() =~= sv.skip(i + 1));
        }
        if crate::text::eq_str(id.as_slice(), "current_state") {
            let ghost before = sections_view(sections@);
            let new_content = chars_to_string(content.as_slice());
            sections[i].content = new_content;
            proof {
                assert(sv.skip(i as int)[0].0 == "current_state"@);
                assert(sections_view(sections@) =~= before.update(i as int, (sv[i as int].0, sv[i as int].1, content@)));
                assert(sv.take(i as int) + with_current_state(sv.skip(i as int), content@) =~= sv.update(
                    i as int,
                    (sv[i as int].0, sv[i as int].1, content@),
                ));
            }
            return;
        }
        proof {
            assert(with_current_state(sv.skip(i as int), content@) =~= seq![sv[i as int]] + with_current_state(sv.skip(i + 1), content@));
            assert(sv.take(i as int) + (seq![sv[i as int]] + with_current_state(sv.skip(i + 1), content@)) =~= sv.take(i + 1) + with_current_state(sv.skip(i + 1), content@));
        }
        i = i + 1;
    }
    proof {
        assert(sv.skip(i as int) =~= Seq::<(Seq<char>, Seq<char>, Seq<char>)>::empty());
        assert(sv.take(i as int) =~= sv);
        assert(sv.take(i as int) + with_current_state(sv.skip(i as int), content@) =~= sv);
    }
}

impl HeuristicAnchorSummarizer {
    /// Rolls `segments` (`[kind] content`, blank-line separated) into the `current_state`
    /// section of `existing` (or of a fresh summary), re-estimates the tokens of the rendered
    /// summary and counts one more iteration (saturating).
    pub fn summarize(&self, segments: &[SegmentPlan], existing: Option<&AnchoredSummary>) -> (r: AnchoredSummary)
        ensures
            ({
                let base_secs = match existing {
                    Some(e) => sections_view(e.sections@),
                    None => empty_sections(),
                };
                let secs = with_current_state(base_secs, rolled_segments(segs_view(segments@)));
                &&& sections_view(r.sections@) == secs
                &&& r.schema_version == match existing {
                    Some(e) => e.schema_version,
                    None => SUMMARY_SCHEMA_VERSION,
                }
                &&& r.token_estimate == (vstd::utf8::encode_utf8(prompt_text(secs)).len() as usize)
                    / 4 + 1
                &&& r.iteration == match existing {
                    Some(e) => if e.iteration < u32::MAX {
                        (e.iteration + 1) as u32
                    } else {
                        u32::MAX
                    },
                    None => 1u32,
                }
            }),
    {
        let mut s = match existing {
            Some(e) => AnchoredSummary {
                schema_version: e.schema_version,
                sections: clone_sections(&e.sections),
                token_estimate: e.token_estimate,
                iteration: e.iteration,
            },
            None => AnchoredSummary::empty(),
        };
        let joined = rolled_text(segments);
        set_current_state(&mut s.sections, &joined);
        let text = to_prompt_text(s.sections.as_slice());
        let n = text.as_str().len();
        s.token_estimate = n / 4 + 1;
        s.iteration = if s.iteration < u32::MAX {
            s.iteration + 1
        } else {
            u32::MAX
        };
        s
    }
}

fn clone_sections(v: &Vec<SummarySection>) -> (r: Vec<SummarySection>)
    ensures
        sections_view(r@) == sections_view(v@),
{
    let mut out: Vec<SummarySection> = Vec::new();
    let mut i: usize = 0;
    while i < v.len()
        invariant
            i <= v@.len(),
            sections_view(out@) == sections_view(v@).take(i as int),
        decreases v.len() - i,
    {
        let s = SummarySection {
            id: v[i].id.clone(),
            label: v[i].label.clone(),
            content: v[i].content.clone(),
        };
        let ghost before = sections_view(out@);
        let ghost sview = section_view(s);
        assert(sview == section_view(v@[i as int]));
        out.push(s);
        assert(sections_view(out@) =~= before.push(sview));
        assert(sections_view(v@).take(i + 1) =~= sections_view(v@).take(i as int).push(sview));
        i = i + 1;
    }
    assert(sections_view(v@).take(v@.len() as int) =~= sections_view(v@));
    out
}

} // verus!
