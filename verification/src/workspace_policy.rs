//! Workspace policy for running AINL programs: context freshness, whether repo intelligence
//! is ready, the strict and balanced impact decisions, and the hint given to the agent.

use vstd::prelude::*;
use crate::text::owned;

verus! {

/// How current the indexed context is.
#[derive(Debug, Clone, Copy, PartialEq, Eq, Structural)]
pub enum ContextFreshness {
    Fresh,
    Stale,
    Unknown,
}

/// What the policy allows before executing.
#[derive(Debug, Clone, Copy, PartialEq, Eq, Structural)]
pub enum ImpactDecision {
    AllowExecute,
    RequireImpactFirst,
    BlockUntilFresh,
}

/// Freshness from the host's signals: unknown when flagged so or when the index's staleness
/// against HEAD is not known.
pub fn evaluate_freshness(unknown: bool, index_stale_vs_head: Option<bool>) -> (r: ContextFreshness)
    ensures
        r == if unknown {
            ContextFreshness::Unknown
        } else {
            match index_stale_vs_head {
                Some(true) => ContextFreshness::Stale,
                Some(false) => ContextFreshness::Fresh,
                None => ContextFreshness::Unknown,
            }
        },
{
    if unknown {
        return ContextFreshness::Unknown;
    }
    match index_stale_vs_head {
        Some(true) => ContextFreshness::Stale,
        Some(false) => ContextFreshness::Fresh,
        None => ContextFreshness::Unknown,
    }
}

/// Strict policy: fresh context executes; stale context needs impact review with repo
/// intelligence and is blocked without it; unknown freshness always needs impact review.
pub open spec fn strict_decision(f: ContextFreshness, repo_ready: bool) -> ImpactDecision {
    match f {
        ContextFreshness::Stale => if repo_ready {
            ImpactDecision::RequireImpactFirst
        } else {
            ImpactDecision::BlockUntilFresh
        },
        ContextFreshness::Unknown => ImpactDecision::RequireImpactFirst,
        ContextFreshness::Fresh => ImpactDecision::AllowExecute,
    }
}

/// Balanced policy: never blocks; asks for impact review on stale or unknown context only
/// when repo intelligence is ready.
pub open spec fn balanced_decision(f: ContextFreshness, repo_ready: bool) -> ImpactDecision {
    match f {
        ContextFreshness::Fresh => ImpactDecision::AllowExecute,
        _ => if repo_ready {
            ImpactDecision::RequireImpactFirst
        } else {
            ImpactDecision::AllowExecute
        },
    }
}

/// The strict impact decision.
pub fn impact_decision_strict(f: ContextFreshness, repo_intel_ready: bool) -> (r: ImpactDecision)
    ensures
        r == strict_decision(f, repo_intel_ready),
{
    match f {
        ContextFreshness::Stale => if repo_intel_ready {
            ImpactDecision::RequireImpactFirst
        } else {
            ImpactDecision::BlockUntilFresh
        },
        ContextFreshness::Unknown => ImpactDecision::RequireImpactFirst,
        ContextFreshness::Fresh => ImpactDecision::AllowExecute,
    }
}

/// The balanced impact decision.
pub fn impact_decision_balanced(f: ContextFreshness, repo_intel_ready: bool) -> (r: ImpactDecision)
    ensures
        r == balanced_decision(f, repo_intel_ready),
{
    match f {
        ContextFreshness::Fresh => ImpactDecision::AllowExecute,
        _ => if repo_intel_ready {
            ImpactDecision::RequireImpactFirst
        } else {
            ImpactDecision::AllowExecute
        },
    }
}

/// The balanced policy never blocks, and it never asks for more than the strict one.
pub proof fn law_balanced_never_stricter(f: ContextFreshness, repo_ready: bool)
    ensures
        balanced_decision(f, repo_ready) != ImpactDecision::BlockUntilFresh,
        strict_decision(f, repo_ready) == ImpactDecision::AllowExecute ==> balanced_decision(f, repo_ready)
            == ImpactDecision::AllowExecute,
{
}

/// The workspace's policy snapshot.
#[derive(Debug, Clone, Copy, PartialEq, Eq, Structural)]
pub struct WorkspaceAinlPolicyView {
    pub context_freshness: ContextFreshness,
    pub repo_intelligence_ready: bool,
    pub impact_decision_strict: ImpactDecision,
    pub impact_decision_balanced: ImpactDecision,
}

/// The policy snapshot for a workspace whose repo-intelligence readiness is known; with no
/// freshness signals the context counts as unknown.
pub fn workspace_policy_view(repo_intelligence_ready: bool) -> (r: WorkspaceAinlPolicyView)
    ensures
        r.context_freshness == ContextFreshness::Unknown,
        r.repo_intelligence_ready == repo_intelligence_ready,
        r.impact_decision_strict == strict_decision(ContextFreshness::Unknown, repo_intelligence_ready),
        r.impact_decision_balanced == balanced_decision(ContextFreshness::Unknown, repo_intelligence_ready),
{
    let f = evaluate_freshness(false, None);
    WorkspaceAinlPolicyView {
        context_freshness: f,
        repo_intelligence_ready,
        impact_decision_strict: impact_decision_strict(f, repo_intelligence_ready),
        impact_decision_balanced: impact_decision_balanced(f, repo_intelligence_ready),
    }
}

/// The hint for the agent's system prompt when the strict policy calls for caution.
pub open spec fn policy_hint(v: WorkspaceAinlPolicyView) -> Seq<char> {
    match v.impact_decision_strict {
        ImpactDecision::AllowExecute => ""@,
        ImpactDecision::RequireImpactFirst => if v.repo_intelligence_ready {
            "AINL policy: repo-intelligence MCP looks ready; prefer validate → compile → IR diff or external impact tools before executing `.ainl` when changes are non-trivial."@
        } else {
            "AINL policy: context freshness is uncertain and no full repo-intelligence MCP profile was detected. Prefer `ainl_validate` / `ainl_compile` and impact review before `ainl_run` on important paths."@
        },
        ImpactDecision::BlockUntilFresh => "AINL policy: context appears stale relative to available signals; refresh index/repo context or use repo-intelligence tools before executing."@,
    }
}

/// The hint for the agent's system prompt.
pub fn format_workspace_policy_user_hint(v: &WorkspaceAinlPolicyView) -> (r: String)
    ensures
        r@ == policy_hint(*v),
{
    match v.impact_decision_strict {
        ImpactDecision::AllowExecute => owned(""),
        ImpactDecision::RequireImpactFirst => if v.repo_intelligence_ready {
            owned(
                "AINL policy: repo-intelligence MCP looks ready; prefer validate → compile → IR diff or external impact tools before executing `.ainl` when changes are non-trivial.",
            )
        } else {
            owned(
                "AINL policy: context freshness is uncertain and no full repo-intelligence MCP profile was detected. Prefer `ainl_validate` / `ainl_compile` and impact review before `ainl_run` on important paths.",
            )
        },
        ImpactDecision::BlockUntilFresh => owned(
            "AINL policy: context appears stale relative to available signals; refresh index/repo context or use repo-intelligence tools before executing.",
        ),
    }
}

} // verus!
