//! The decisions of the agent loop, as a state machine over plain values.
//!
//! The host drives the loop: it calls the model, executes tools and stores messages, and
//! after each model reply or tool round hands the outcome to [`LoopControl`], which says what
//! to do next (finish, retry, re-prompt, continue) and keeps the counters the loop's exits
//! depend on: the iteration budget, consecutive token-limit replies, consecutive rounds in
//! which every tool call was blocked, and the tools called since the last final answer.

use vstd::prelude::*;
use crate::agent_policy::{
    has_name, names_contain, phantom_action_detected, process_phantom, process_phantom_detected,
    scheduling_phantom, scheduling_phantom_detected, silent_token, claims_delivery,
    is_silent_token,
};
use crate::text::{
    append_chars, append_str, chars_to_string, decimal, owned, starts_with, starts_with_str,
    str_chars, string_views, trim, trim_range, u64_decimal, unicode_lower, contains, contains_str,
};
use crate::tool_errors::ToolResultEntry;

verus! {

/// Final text when the reply was empty after tools ran.
pub const EMPTY_AFTER_TOOLS_TEXT: &'static str =
    "[Task completed — the agent executed tools but did not produce a text summary.]";

/// Final text when the reply was empty and no tool ran.
pub const EMPTY_REPLY_TEXT: &'static str =
    "[The model returned an empty response. This usually means the model is overloaded, the context is too large, or the API key lacks credits. Try again or check /status.]";

/// Stored in the session in place of a silent reply.
pub const NO_REPLY_PLACEHOLDER: &'static str = "[no reply needed]";

/// Assistant turn pushed before retrying an empty reply.
pub const EMPTY_RETRY_ASSISTANT: &'static str = "[no response]";

/// User turn pushed before retrying an empty reply.
pub const EMPTY_RETRY_USER: &'static str = "Please provide your response.";

/// Re-prompt after a claimed channel action without any tool call.
pub const PHANTOM_ACTION_PROMPT: &'static str =
    "[System: You claimed to perform an action but did not call any tools. You must use the appropriate tool (e.g., channel_send, web_fetch, file_write) to actually perform the action. Do not claim completion without executing tools.]";

/// Re-prompt after claimed scheduling without a scheduler tool call.
pub const SCHEDULING_PHANTOM_PROMPT: &'static str =
    "[System: The user asked to register recurring / scheduled work with the ArmaraOS kernel scheduler. You must call schedule_create or cron_create (or schedule_list / cron_list first). Jobs persist under ~/.armaraos/cron_jobs.json. Do not claim crontab, launchd, or memory-only storage alone is sufficient.]";

/// Re-prompt after a claimed process start or stop without the process tool.
pub const PROCESS_PHANTOM_PROMPT: &'static str =
    "[System: You described starting or stopping a process but did not call process_start or process_kill. You must call the appropriate process management tool to actually perform the action — do not claim the process is running/stopped without having called the tool.]";

/// Reply when every tool call was blocked for too many rounds in a row.
pub const ALL_BLOCKED_SUMMARY: &'static str =
    "I was unable to complete the task: my tool calls were repeatedly blocked because I appeared to be stuck calling the same tools in a loop. Please try rephrasing your request, breaking it into smaller steps, or using a different approach.";

/// User turn injected when the iteration budget is almost spent.
pub const WRAP_UP_PROMPT: &'static str =
    "[System: You are very close to the maximum number of allowed steps. Stop calling tools now. Write a final text response summarizing what you have done and any results or next steps for the user.]";

/// Final text when the token limit was hit repeatedly with no text.
pub const PARTIAL_EMPTY_TEXT: &'static str = "[Partial response — token limit reached with no text output.]";

/// User turn pushed after a reply cut off by the token limit.
pub const CONTINUE_PROMPT: &'static str = "Please continue.";

/// Consecutive fully blocked tool rounds after which the loop gives up.
pub const MAX_CONSECUTIVE_ALL_BLOCKED: u32 = 3;

/// Iterations before the limit at which the wrap-up prompt is injected.
pub const WRAP_UP_MARGIN: u32 = 3;

/// Most assistant turns a redirect removes.
pub const REDIRECT_PRUNE_MAX: usize = 8;

/// Why a reply is re-prompted.
#[derive(Debug, Clone, Copy, PartialEq, Eq, Structural)]
pub enum PhantomKind {
    /// A channel action claimed on the first iteration with no tool call at all.
    Action,
    /// Recurring work claimed scheduled without a scheduler tool.
    Scheduling,
    /// A process claimed started or stopped without the process tool.
    Process,
}

/// How the model's reply ended.
#[derive(Debug, Clone, Copy, PartialEq, Eq, Structural)]
pub enum StopKind {
    EndTurn,
    StopSequence,
    ToolUse,
    MaxTokens,
}

/// A final (end-turn) reply, as the loop sees it.
pub struct EndTurnReply {
    /// The reply text, reply directives removed.
    pub text: String,
    /// A `silent` reply directive was present.
    pub silent_directive: bool,
    /// The reply carried tool calls.
    pub has_tool_calls: bool,
    /// The reply carried any content block.
    pub has_any_content: bool,
    /// Input and output token counts were both zero (the request silently failed).
    pub silent_failure: bool,
}

/// What to do with a final reply.
pub enum EndTurnAction {
    /// Store [`NO_REPLY_PLACEHOLDER`] and return an empty, silent reply.
    Silent,
    /// Push [`EMPTY_RETRY_ASSISTANT`] and [`EMPTY_RETRY_USER`] and call the model again;
    /// `repair` asks to re-validate the history first.
    RetryEmpty { repair: bool },
    /// Push `assistant_text` and the kind's corrective prompt, then call the model again.
    Reprompt { kind: PhantomKind, assistant_text: String },
    /// Store and return `text` as the answer.
    Finish { text: String },
}

/// What to do after a reply cut off by the token limit.
pub enum MaxTokensAction {
    /// Push the partial text and [`CONTINUE_PROMPT`], then call the model again.
    Continue,
    /// Store and return `text` as the answer.
    FinishPartial { text: String },
}

/// What follows a tool round.
pub struct ToolRoundVerdict {
    /// Every call was blocked for [`MAX_CONSECUTIVE_ALL_BLOCKED`] rounds: answer with
    /// [`ALL_BLOCKED_SUMMARY`] and stop.
    pub exit_all_blocked: bool,
    /// Results that report a denied approval.
    pub denial_count: usize,
    /// Notice appended to the results when some approval was denied.
    pub denial_notice: Option<String>,
    /// Append [`WRAP_UP_PROMPT`] after the results.
    pub wrap_up: bool,
}

/// The loop's state.
pub struct LoopControl {
    /// Index of the current iteration (0-based).
    pub iteration: u32,
    /// Iteration budget.
    pub max_iterations: u32,
    /// Consecutive token-limit replies after which the partial reply is returned.
    pub max_continuations: u32,
    /// Some tool round ran this turn.
    pub any_tools_executed: bool,
    /// Token-limit replies in a row.
    pub consecutive_max_tokens: u32,
    /// Fully blocked tool rounds in a row.
    pub consecutive_all_blocked: u32,
    /// Tools called since the last final answer, each once.
    pub tools_called: Vec<String>,
}

// ---------------------------------------------------------------------------
// Final replies
// ---------------------------------------------------------------------------

/// The reply text, or the empty-reply text when it is blank.
pub open spec fn guarded_text(text: Seq<char>, any_tools: bool) -> Seq<char> {
    if trim(text).len() == 0 {
        if any_tools {
            EMPTY_AFTER_TOOLS_TEXT@
        } else {
            EMPTY_REPLY_TEXT@
        }
    } else {
        text
    }
}

/// The decision on a final reply: the action's kind (0 silent, 1 retry, 2 re-prompt,
/// 3 finish), the repair flag, the phantom kind and the text carried.
pub open spec fn end_turn_spec(
    c: LoopControl,
    r: EndTurnReply,
    user: Seq<char>,
) -> (u8, bool, PhantomKind, Seq<char>) {
    let text = r.text@;
    if silent_token(text) || r.silent_directive {
        (0, false, PhantomKind::Action, seq![])
    } else if trim(text).len() == 0 && !r.has_tool_calls && !r.has_any_content && (c.iteration
        == 0 || r.silent_failure) {
        (1, r.silent_failure, PhantomKind::Action, seq![])
    } else {
        let g = guarded_text(text, c.any_tools_executed);
        if !c.any_tools_executed && c.iteration == 0 && claims_delivery(unicode_lower(g)) {
            (2, false, PhantomKind::Action, g)
        } else if scheduling_phantom(unicode_lower(user), unicode_lower(g), c.tools_called@) {
            (2, false, PhantomKind::Scheduling, g)
        } else if process_phantom(unicode_lower(g), c.tools_called@) {
            (2, false, PhantomKind::Process, g)
        } else {
            (3, false, PhantomKind::Action, g)
        }
    }
}

/// The decision an action encodes, as `end_turn_spec` writes it.
pub open spec fn end_turn_view(a: EndTurnAction) -> (u8, bool, PhantomKind, Seq<char>) {
    match a {
        EndTurnAction::Silent => (0, false, PhantomKind::Action, seq![]),
        EndTurnAction::RetryEmpty { repair } => (1, repair, PhantomKind::Action, seq![]),
        EndTurnAction::Reprompt { kind, assistant_text } => (2, false, kind, assistant_text@),
        EndTurnAction::Finish { text } => (3, false, PhantomKind::Action, text@),
    }
}

/// A silent reply (the `NO_REPLY` token, `[SILENT]` in any ASCII case, or a `silent`
/// directive) always ends the turn silently, whatever the loop state and the user message:
/// nothing is re-prompted or retried, and the tools called so far are kept.
pub proof fn law_silent_reply_ends_silently(c: LoopControl, r: EndTurnReply, user: Seq<char>)
    requires
        silent_token(r.text@) || r.silent_directive,
    ensures
        end_turn_spec(c, r, user) == end_turn_view(EndTurnAction::Silent),
        !clears_tools(end_turn_spec(c, r, user)),
{
}

/// Whether a final decision forgets the tools called so far: a finished answer and the
/// scheduling and process re-prompts do; silence, retries and the action re-prompt do not.
pub open spec fn clears_tools(d: (u8, bool, PhantomKind, Seq<char>)) -> bool {
    d.0 == 3 || (d.0 == 2 && d.2 != PhantomKind::Action)
}

/// The corrective prompt for a re-prompt.
pub open spec fn phantom_prompt_text(k: PhantomKind) -> Seq<char> {
    match k {
        PhantomKind::Action => PHANTOM_ACTION_PROMPT@,
        PhantomKind::Scheduling => SCHEDULING_PHANTOM_PROMPT@,
        PhantomKind::Process => PROCESS_PHANTOM_PROMPT@,
    }
}

/// The corrective prompt for a re-prompt.
pub fn phantom_prompt(kind: PhantomKind) -> (r: &'static str)
    ensures
        r@ == phantom_prompt_text(kind),
{
    match kind {
        PhantomKind::Action => PHANTOM_ACTION_PROMPT,
        PhantomKind::Scheduling => SCHEDULING_PHANTOM_PROMPT,
        PhantomKind::Process => PROCESS_PHANTOM_PROMPT,
    }
}

fn is_blank(s: &str) -> (r: bool)
    ensures
        r == (trim(s@).len() == 0),
{
    let v = str_chars(s);
    let (a, b) = trim_range(v.as_slice(), 0, v.len());
    assert(v@.subrange(0, v@.len() as int) =~= v@);
    a == b
}

impl LoopControl {
    /// A fresh loop with the given budgets.
    pub fn new(max_iterations: u32, max_continuations: u32) -> (r: Self)
        ensures
            r.iteration == 0,
            r.max_iterations == max_iterations,
            r.max_continuations == max_continuations,
            !r.any_tools_executed,
            r.consecutive_max_tokens == 0,
            r.consecutive_all_blocked == 0,
            r.tools_called@.len() == 0,
    {
        LoopControl {
            iteration: 0,
            max_iterations,
            max_continuations,
            any_tools_executed: false,
            consecutive_max_tokens: 0,
            consecutive_all_blocked: 0,
            tools_called: Vec::new(),
        }
    }

    /// Whether another iteration fits in the budget.
    pub fn in_budget(&self) -> (r: bool)
        ensures
            r == (self.iteration < self.max_iterations),
    {
        self.iteration < self.max_iterations
    }

    /// Moves to the next iteration.
    pub fn next_iteration(&mut self)
        requires
            old(self).iteration < old(self).max_iterations,
        ensures
            final(self).iteration == old(self).iteration + 1,
            final(self).max_iterations == old(self).max_iterations,
            final(self).max_continuations == old(self).max_continuations,
            final(self).any_tools_executed == old(self).any_tools_executed,
            final(self).consecutive_max_tokens == old(self).consecutive_max_tokens,
            final(self).consecutive_all_blocked == old(self).consecutive_all_blocked,
            final(self).tools_called@ == old(self).tools_called@,
    {
        self.iteration = self.iteration + 1;
    }

    /// Notes that a tool passed the pre-execution checks and will run.
    pub fn record_tool_called(&mut self, name: &str)
        ensures
            string_views(final(self).tools_called@) == if has_name(old(self).tools_called@, name@) {
                string_views(old(self).tools_called@)
            } else {
                string_views(old(self).tools_called@).push(name@)
            },
            final(self).iteration == old(self).iteration,
            final(self).max_iterations == old(self).max_iterations,
            final(self).max_continuations == old(self).max_continuations,
            final(self).any_tools_executed == old(self).any_tools_executed,
            final(self).consecutive_max_tokens == old(self).consecutive_max_tokens,
            final(self).consecutive_all_blocked == old(self).consecutive_all_blocked,
    {
        if !names_contain(self.tools_called.as_slice(), name) {
            let ghost before = string_views(self.tools_called@);
            let s = owned(name);
            self.tools_called.push(s);
            assert(string_views(self.tools_called@) =~= before.push(name@));
        }
    }

    /// Decides what to do with a final reply to `user_message`.
    pub fn end_turn(&mut self, reply: &EndTurnReply, user_message: &str) -> (r: EndTurnAction)
        ensures
            end_turn_view(r) == end_turn_spec(*old(self), *reply, user_message@),
            final(self).tools_called@ == if clears_tools(end_turn_view(r)) {
                Seq::<String>::empty()
            } else {
                old(self).tools_called@
            },
            final(self).iteration == old(self).iteration,
            final(self).max_iterations == old(self).max_iterations,
            final(self).max_continuations == old(self).max_continuations,
            final(self).any_tools_executed == old(self).any_tools_executed,
            final(self).consecutive_max_tokens == old(self).consecutive_max_tokens,
            final(self).consecutive_all_blocked == old(self).consecutive_all_blocked,
    {
        let ghost before = *self;
        if is_silent_token(reply.text.as_str()) || reply.silent_directive {
            return EndTurnAction::Silent;
        }
        let blank = is_blank(reply.text.as_str());
        if blank && !reply.has_tool_calls && !reply.has_any_content && (self.iteration == 0
            || reply.silent_failure) {
            return EndTurnAction::RetryEmpty { repair: reply.silent_failure };
        }
        let text: String = if blank {
            if self.any_tools_executed {
                owned(EMPTY_AFTER_TOOLS_TEXT)
            } else {
                owned(EMPTY_REPLY_TEXT)
            }
        } else {
            reply.text.clone()
        };
        assert(text@ == guarded_text(reply.text@, self.any_tools_executed));
        if !self.any_tools_executed && self.iteration == 0 && phantom_action_detected(
            text.as_str(),
        ) {
            return EndTurnAction::Reprompt { kind: PhantomKind::Action, assistant_text: text };
        }
        if scheduling_phantom_detected(user_message, text.as_str(), self.tools_called.as_slice()) {
            self.tools_called = Vec::new();
            return EndTurnAction::Reprompt { kind: PhantomKind::Scheduling, assistant_text: text };
        }
        if process_phantom_detected(text.as_str(), self.tools_called.as_slice()) {
            self.tools_called = Vec::new();
            return EndTurnAction::Reprompt { kind: PhantomKind::Process, assistant_text: text };
        }
        self.tools_called = Vec::new();
        EndTurnAction::Finish { text }
    }
}

// ---------------------------------------------------------------------------
// Tool rounds
// ---------------------------------------------------------------------------

/// A result blocked by the loop guard: an error whose text starts with `Blocked:` or
/// `Circuit breaker:`.
pub open spec fn guard_blocked(e: ToolResultEntry) -> bool {
    e.is_error && (starts_with(e.content@, "Blocked:"@) || starts_with(
        e.content@,
        "Circuit breaker:"@,
    ))
}

/// A result reporting a denied approval.
pub open spec fn approval_denied(e: ToolResultEntry) -> bool {
    e.is_error && contains(e.content@, "requires human approval and was denied"@)
}

/// Every result of a non-empty round was blocked by the loop guard.
pub open spec fn all_blocked(rs: Seq<ToolResultEntry>) -> bool {
    rs.len() > 0 && forall|i: int| 0 <= i < rs.len() ==> guard_blocked(#[trigger] rs[i])
}

/// The number of denied approvals among the results.
pub open spec fn denials(rs: Seq<ToolResultEntry>) -> nat
    decreases rs.len(),
{
    if rs.len() == 0 {
        0
    } else {
        denials(rs.drop_last()) + if approval_denied(rs.last()) {
            1nat
        } else {
            0nat
        }
    }
}

/// The notice for `n` denied approvals.
pub open spec fn denial_notice_text(n: nat) -> Seq<char> {
    "[System: "@ + decimal(n)
        + " tool call(s) were denied by approval policy. Do NOT retry denied tools. Explain to the user what you wanted to do and that it requires their approval. Hint: set auto_approve = true in [approval] section of config.toml, or start with --yolo flag, to auto-approve all tool calls.]"@
}

/// The fully-blocked streak after a round.
pub open spec fn next_blocked_streak(prev: u32, rs: Seq<ToolResultEntry>) -> int {
    if all_blocked(rs) {
        if prev < u32::MAX {
            prev + 1
        } else {
            prev as int
        }
    } else {
        0
    }
}

fn is_guard_blocked(e: &ToolResultEntry) -> (r: bool)
    ensures
        r == guard_blocked(*e),
{
    if !e.is_error {
        return false;
    }
    let c = str_chars(e.content.as_str());
    starts_with_str(c.as_slice(), "Blocked:") || starts_with_str(c.as_slice(), "Circuit breaker:")
}

fn is_approval_denied(e: &ToolResultEntry) -> (r: bool)
    ensures
        r == approval_denied(*e),
{
    if !e.is_error {
        return false;
    }
    let c = str_chars(e.content.as_str());
    contains_str(c.as_slice(), "requires human approval and was denied")
}

/// The notice for `n` denied approvals.
pub fn denial_notice(n: usize) -> (r: String)
    ensures
        r@ == denial_notice_text(n as nat),
{
    let mut v = str_chars("[System: ");
    let d = u64_decimal(n as u64);
    append_chars(&mut v, d.as_slice());
    append_str(
        &mut v,
        " tool call(s) were denied by approval policy. Do NOT retry denied tools. Explain to the user what you wanted to do and that it requires their approval. Hint: set auto_approve = true in [approval] section of config.toml, or start with --yolo flag, to auto-approve all tool calls.]",
    );
    chars_to_string(v.as_slice())
}

impl LoopControl {
    /// Notes that the reply asked for tools: the token-limit streak ends and tools ran.
    pub fn start_tool_round(&mut self)
        ensures
            final(self).consecutive_max_tokens == 0,
            final(self).any_tools_executed,
            final(self).iteration == old(self).iteration,
            final(self).max_iterations == old(self).max_iterations,
            final(self).max_continuations == old(self).max_continuations,
            final(self).consecutive_all_blocked == old(self).consecutive_all_blocked,
            final(self).tools_called@ == old(self).tools_called@,
    {
        self.consecutive_max_tokens = 0;
        self.any_tools_executed = true;
    }

    /// Decides what follows a tool round with these results.
    pub fn finish_tool_round(&mut self, results: &[ToolResultEntry]) -> (r: ToolRoundVerdict)
        ensures
            final(self).consecutive_all_blocked == next_blocked_streak(
                old(self).consecutive_all_blocked,
                results@,
            ),
            r.exit_all_blocked == (final(self).consecutive_all_blocked
                >= MAX_CONSECUTIVE_ALL_BLOCKED),
            r.denial_count == denials(results@),
            match r.denial_notice {
                Some(t) => r.denial_count > 0 && t@ == denial_notice_text(r.denial_count as nat),
                None => r.denial_count == 0,
            },
            r.wrap_up == (old(self).iteration + 1 + WRAP_UP_MARGIN >= old(self).max_iterations),
            final(self).iteration == old(self).iteration,
            final(self).max_iterations == old(self).max_iterations,
            final(self).max_continuations == old(self).max_continuations,
            final(self).any_tools_executed == old(self).any_tools_executed,
            final(self).consecutive_max_tokens == old(self).consecutive_max_tokens,
            final(self).tools_called@ == old(self).tools_called@,
    {
        let mut every_blocked = results.len() > 0;
        let mut count: usize = 0;
        let mut i: usize = 0;
        while i < results.len()
            invariant
                i <= results@.len(),
                every_blocked == (results@.len() > 0 && forall|k: int|
                    0 <= k < i ==> guard_blocked(#[trigger] results@[k])),
                count == denials(results@.take(i as int)),
                count <= i,
            decreases results.len() - i,
        {
            proof {
                assert(results@.take(i + 1).drop_last() =~= results@.take(i as int));
                assert(results@.take(i + 1).last() == results@[i as int]);
            }
            if !is_guard_blocked(&results[i]) {
                every_blocked = false;
            }
            if is_approval_denied(&results[i]) {
                count = count + 1;
            }
            i = i + 1;
        }
        assert(results@.take(results@.len() as int) =~= results@);
        if every_blocked {
            if self.consecutive_all_blocked < u32::MAX {
                self.consecutive_all_blocked = self.consecutive_all_blocked + 1;
            }
        } else {
            self.consecutive_all_blocked = 0;
        }
        let notice = if count > 0 {
            Some(denial_notice(count))
        } else {
            None
        };
        let wrap_up = self.iteration as u64 + 1 + WRAP_UP_MARGIN as u64 >= self.max_iterations as u64;
        ToolRoundVerdict {
            exit_all_blocked: self.consecutive_all_blocked >= MAX_CONSECUTIVE_ALL_BLOCKED,
            denial_count: count,
            denial_notice: notice,
            wrap_up,
        }
    }
}

// ---------------------------------------------------------------------------
// Token-limit replies and the iteration limit
// ---------------------------------------------------------------------------

/// The token-limit streak after one more cut-off reply.
pub open spec fn next_max_tokens_streak(prev: u32) -> int {
    if prev < u32::MAX {
        prev + 1
    } else {
        prev as int
    }
}

impl LoopControl {
    /// Decides what to do with a reply cut off by the token limit.
    pub fn max_tokens(&mut self, text: &str) -> (r: MaxTokensAction)
        ensures
            final(self).consecutive_max_tokens == next_max_tokens_streak(
                old(self).consecutive_max_tokens,
            ),
            match r {
                MaxTokensAction::FinishPartial { text: t } => final(self).consecutive_max_tokens
                    >= old(self).max_continuations && t@ == if trim(text@).len() == 0 {
                    PARTIAL_EMPTY_TEXT@
                } else {
                    text@
                },
                MaxTokensAction::Continue => final(self).consecutive_max_tokens
                    < old(self).max_continuations,
            },
            final(self).iteration == old(self).iteration,
            final(self).max_iterations == old(self).max_iterations,
            final(self).max_continuations == old(self).max_continuations,
            final(self).any_tools_executed == old(self).any_tools_executed,
            final(self).consecutive_all_blocked == old(self).consecutive_all_blocked,
            final(self).tools_called@ == old(self).tools_called@,
    {
        if self.consecutive_max_tokens < u32::MAX {
            self.consecutive_max_tokens = self.consecutive_max_tokens + 1;
        }
        if self.consecutive_max_tokens >= self.max_continuations {
            let t = if is_blank(text) {
                owned(PARTIAL_EMPTY_TEXT)
            } else {
                owned(text)
            };
            MaxTokensAction::FinishPartial { text: t }
        } else {
            MaxTokensAction::Continue
        }
    }
}

/// The reply when the iteration budget ran out.
pub open spec fn step_limit_text(max_iterations: u32) -> Seq<char> {
    "I reached my step limit ("@ + decimal(max_iterations as nat)
        + " steps) and could not complete the task in one go. If I got stuck in a loop, try `/reset` to clear the session and rephrase your request. If the task genuinely needs more steps, increase `max_iterations` under `[autonomous]` in agent.toml."@
}

/// The reply when the iteration budget ran out.
pub fn step_limit_message(max_iterations: u32) -> (r: String)
    ensures
        r@ == step_limit_text(max_iterations),
{
    let mut v = str_chars("I reached my step limit (");
    let d = u64_decimal(max_iterations as u64);
    append_chars(&mut v, d.as_slice());
    append_str(
        &mut v,
        " steps) and could not complete the task in one go. If I got stuck in a loop, try `/reset` to clear the session and rephrase your request. If the task genuinely needs more steps, increase `max_iterations` under `[autonomous]` in agent.toml.",
    );
    chars_to_string(v.as_slice())
}

/// The loop guard's global circuit breaker: raised to three times the iteration budget when
/// the budget exceeds the default.
pub fn global_circuit_breaker_for(max_iterations: u32, default_breaker: u32) -> (r: u32)
    requires
        max_iterations <= u32::MAX / 3,
    ensures
        r == if max_iterations > default_breaker {
            3 * max_iterations
        } else {
            default_breaker as int
        },
{
    if max_iterations > default_breaker {
        max_iterations * 3
    } else {
        default_breaker
    }
}

/// Messages to drop from the front of a history of `len` messages so that at most `max`
/// remain.
pub fn history_trim_count(len: usize, max: usize) -> (r: usize)
    ensures
        r == if len > max {
            len - max
        } else {
            0
        },
{
    if len > max {
        len - max
    } else {
        0
    }
}

// ---------------------------------------------------------------------------
// Messages injected between iterations
// ---------------------------------------------------------------------------

/// The user turn for a `/btw` injection.
pub fn btw_message(text: &str) -> (r: String)
    ensures
        r@ == "[btw] "@ + text@,
{
    let mut v = str_chars("[btw] ");
    append_str(&mut v, text);
    chars_to_string(v.as_slice())
}

/// The system turn for a `/redirect` override.
pub fn redirect_message(text: &str) -> (r: String)
    ensures
        r@ == "[REDIRECT] STOP your current plan immediately. Do not continue previous steps. New directive from user: "@
            + text@,
{
    let mut v = str_chars(
        "[REDIRECT] STOP your current plan immediately. Do not continue previous steps. New directive from user: ",
    );
    append_str(&mut v, text);
    chars_to_string(v.as_slice())
}

/// Indices (from the end, descending) of the last `k` assistant turns among the first `n`
/// messages; `is_assistant` gives each message's role.
pub open spec fn last_assistant_indices(is_assistant: Seq<bool>, n: int, k: nat) -> Seq<int>
    decreases n,
{
    if n <= 0 || k == 0 {
        seq![]
    } else if is_assistant[n - 1] {
        seq![n - 1] + last_assistant_indices(is_assistant, n - 1, (k - 1) as nat)
    } else {
        last_assistant_indices(is_assistant, n - 1, k)
    }
}

/// The messages a redirect removes: up to the last [`REDIRECT_PRUNE_MAX`] assistant turns,
/// as indices in descending order (so removing them one by one keeps the rest valid).
pub fn redirect_prune_indices(is_assistant: &[bool]) -> (r: Vec<usize>)
    ensures
        r@.map_values(|i: usize| i as int) == last_assistant_indices(
            is_assistant@,
            is_assistant@.len() as int,
            REDIRECT_PRUNE_MAX as nat,
        ),
{
    let mut out: Vec<usize> = Vec::new();
    let mut i: usize = is_assistant.len();
    while i > 0 && out.len() < REDIRECT_PRUNE_MAX
        invariant
            i <= is_assistant@.len(),
            out@.len() <= REDIRECT_PRUNE_MAX,
            out@.map_values(|j: usize| j as int) + last_assistant_indices(
                is_assistant@,
                i as int,
                (REDIRECT_PRUNE_MAX - out@.len()) as nat,
            ) == last_assistant_indices(
                is_assistant@,
                is_assistant@.len() as int,
                REDIRECT_PRUNE_MAX as nat,
            ),
        decreases i,
    {
        let ghost before = out@.map_values(|j: usize| j as int);
        let ghost k = (REDIRECT_PRUNE_MAX - out@.len()) as nat;
        i = i - 1;
        if is_assistant[i] {
            out.push(i);
            assert(out@.map_values(|j: usize| j as int) =~= before.push(i as int));
            assert(before.push(i as int) + last_assistant_indices(is_assistant@, i as int, (k - 1) as nat)
                =~= before + last_assistant_indices(is_assistant@, i + 1, k));
        }
    }
    proof {
        let k = (REDIRECT_PRUNE_MAX - out@.len()) as nat;
        assert(last_assistant_indices(is_assistant@, i as int, k) =~= Seq::<int>::empty());
        assert(out@.map_values(|j: usize| j as int) + Seq::<int>::empty() =~= out@.map_values(
            |j: usize| j as int,
        ));
    }
    out
}

// ---------------------------------------------------------------------------
// Tool calls
// ---------------------------------------------------------------------------

/// Indices of the first occurrence of each distinct value, in order.
pub open spec fn first_occurrences(hashes: Seq<u64>) -> Seq<int>
    decreases hashes.len(),
{
    if hashes.len() == 0 {
        seq![]
    } else {
        let prev = first_occurrences(hashes.drop_last());
        let h = hashes.last();
        if hashes.drop_last().contains(h) {
            prev
        } else {
            prev.push(hashes.len() - 1)
        }
    }
}

/// The tool calls to dispatch, given the loop guard's hash of each call (tool name and
/// input): the first call of each hash, in the reply's order.
pub fn deduplicate_tool_calls(call_hashes: &[u64]) -> (r: Vec<usize>)
    ensures
        r@.map_values(|i: usize| i as int) == first_occurrences(call_hashes@),
{
    let mut out: Vec<usize> = Vec::new();
    let mut i: usize = 0;
    while i < call_hashes.len()
        invariant
            i <= call_hashes@.len(),
            out@.map_values(|j: usize| j as int) == first_occurrences(call_hashes@.take(i as int)),
        decreases call_hashes.len() - i,
    {
        proof {
            assert(call_hashes@.take(i + 1).drop_last() =~= call_hashes@.take(i as int));
            assert(call_hashes@.take(i + 1).last() == call_hashes@[i as int]);
        }
        let mut seen = false;
        let mut j: usize = 0;
        while j < i
            invariant
                j <= i < call_hashes@.len(),
                seen == exists|k: int| 0 <= k < j && call_hashes@[k] == call_hashes@[i as int],
            decreases i - j,
        {
            if call_hashes[j] == call_hashes[i] {
                seen = true;
            }
            j = j + 1;
        }
        proof {
            let pre = call_hashes@.take(i as int);
            if seen {
                let k = choose|k: int| 0 <= k < i && call_hashes@[k] == call_hashes@[i as int];
                assert(pre[k] == call_hashes@[i as int]);
            } else {
                assert(!pre.contains(call_hashes@[i as int])) by {
                    if pre.contains(call_hashes@[i as int]) {
                        let k = choose|k: int| 0 <= k < pre.len() && pre[k] == call_hashes@[i as int];
                        assert(call_hashes@[k] == call_hashes@[i as int]);
                    }
                }
            }
        }
        if !seen {
            let ghost before = out@.map_values(|j: usize| j as int);
            out.push(i);
            assert(out@.map_values(|j: usize| j as int) =~= before.push(i as int));
        }
        i = i + 1;
    }
    assert(call_hashes@.take(call_hashes@.len() as int) =~= call_hashes@);
    out
}

/// Unicode control characters (general category Cc).
pub open spec fn is_control(c: char) -> bool {
    let u = c as u32;
    u <= 0x1F || (0x7F <= u <= 0x9F)
}

/// `s` without its control characters.
pub open spec fn without_controls(s: Seq<char>) -> Seq<char>
    decreases s.len(),
{
    if s.len() == 0 {
        seq![]
    } else if is_control(s.last()) {
        without_controls(s.drop_last())
    } else {
        without_controls(s.drop_last()).push(s.last())
    }
}

/// `s` without control characters, cut to its first 64 characters.
pub open spec fn sanitized_name(s: Seq<char>) -> Seq<char> {
    let kept = without_controls(s);
    if kept.len() <= 64 {
        kept
    } else {
        kept.take(64)
    }
}

/// The tool name reported with the tool-use phase: control characters removed, at most 64
/// characters.
pub fn sanitize_phase_tool_name(name: &str) -> (r: String)
    ensures
        r@ == sanitized_name(name@),
{
    let v = str_chars(name);
    let mut out: Vec<char> = Vec::new();
    let mut i: usize = 0;
    while i < v.len() && out.len() < 64
        invariant
            i <= v@.len(),
            out@.len() <= 64,
            out@ == without_controls(v@.take(i as int)),
        decreases v.len() - i,
    {
        proof {
            assert(v@.take(i + 1).drop_last() =~= v@.take(i as int));
            assert(v@.take(i + 1).last() == v@[i as int]);
        }
        let c = v[i];
        let u = c as u32;
        if !(u <= 0x1F || (0x7F <= u && u <= 0x9F)) {
            out.push(c);
        }
        i = i + 1;
    }
    proof {
        if i == v@.len() {
            assert(v@.take(i as int) =~= v@);
        } else {
            assert(out@.len() == 64);
            lemma_controls_prefix(v@, i as int);
        }
    }
    chars_to_string(out.as_slice())
}

/// Dropping control characters from a prefix gives a prefix of the whole result.
proof fn lemma_controls_prefix(s: Seq<char>, i: int)
    requires
        0 <= i <= s.len(),
    ensures
        without_controls(s).len() >= without_controls(s.take(i)).len(),
        without_controls(s).take(without_controls(s.take(i)).len() as int) == without_controls(
            s.take(i),
        ),
    decreases s.len() - i,
{
    if i < s.len() {
        lemma_controls_prefix(s, i + 1);
        assert(s.take(i + 1).drop_last() =~= s.take(i));
        assert(s.take(i + 1).last() == s[i]);
        let a = without_controls(s.take(i));
        let b = without_controls(s.take(i + 1));
        assert(b.take(a.len() as int) =~= a);
        assert(without_controls(s).take(a.len() as int) =~= without_controls(s).take(
            b.len() as int,
        ).take(a.len() as int));
    } else {
        assert(s.take(i) =~= s);
        assert(without_controls(s).take(without_controls(s).len() as int) =~= without_controls(s));
    }
}

/// The result text for a tool that timed out.
pub fn tool_timeout_message(tool_name: &str, timeout_secs: u64) -> (r: String)
    ensures
        r@ == "Tool '"@ + tool_name@ + "' timed out after "@ + decimal(timeout_secs as nat) + "s."@,
{
    let mut v = str_chars("Tool '");
    append_str(&mut v, tool_name);
    append_str(&mut v, "' timed out after ");
    let d = u64_decimal(timeout_secs);
    append_chars(&mut v, d.as_slice());
    append_str(&mut v, "s.");
    chars_to_string(v.as_slice())
}

/// The result text for a tool call a hook refused.
pub fn hook_blocked_message(tool_name: &str, reason: &str) -> (r: String)
    ensures
        r@ == "Hook blocked tool '"@ + tool_name@ + "': "@ + reason@,
{
    let mut v = str_chars("Hook blocked tool '");
    append_str(&mut v, tool_name);
    append_str(&mut v, "': ");
    append_str(&mut v, reason);
    chars_to_string(v.as_slice())
}

/// A tool result with the loop guard's warning appended.
pub fn with_loop_guard_warning(content: &str, warning: &str) -> (r: String)
    ensures
        r@ == content@ + "\n\n[LOOP GUARD] "@ + warning@,
{
    let mut v = str_chars(content);
    append_str(&mut v, "\n\n[LOOP GUARD] ");
    append_str(&mut v, warning);
    chars_to_string(v.as_slice())
}

// ---------------------------------------------------------------------------
// Required parameters
// ---------------------------------------------------------------------------

/// The schema's documentation of a property.
pub struct PropertyDoc {
    /// The `type` string, when it is a string.
    pub ty: Option<String>,
    /// The `description` string, when it is a string.
    pub description: Option<String>,
}

/// One entry of a tool schema's `required` list, checked against a call's input.
pub struct RequiredField {
    /// The field name; `None` when the entry is not a string.
    pub name: Option<String>,
    /// The input has the field with a non-null value.
    pub present: bool,
    /// The field's entry under the schema's `properties`, when there is one.
    pub property: Option<PropertyDoc>,
}

/// How a missing field is described: `name (type): description`, `name (type)` when the
/// description is empty, or the bare name without a schema entry.
pub open spec fn field_desc(name: Seq<char>, p: Option<PropertyDoc>) -> Seq<char> {
    match p {
        Some(d) => {
            let ty = match d.ty {
                Some(t) => t@,
                None => "any"@,
            };
            let desc = match d.description {
                Some(t) => t@,
                None => seq![],
            };
            if desc.len() == 0 {
                name + " ("@ + ty + ")"@
            } else {
                name + " ("@ + ty + "): "@ + desc
            }
        },
        None => name,
    }
}

/// Descriptions of the required fields the input lacks, in schema order.
pub open spec fn missing_descs(fs: Seq<RequiredField>) -> Seq<Seq<char>>
    decreases fs.len(),
{
    if fs.len() == 0 {
        seq![]
    } else {
        let prev = missing_descs(fs.drop_last());
        let f = fs.last();
        match f.name {
            Some(n) => if !f.present {
                prev.push(field_desc(n@, f.property))
            } else {
                prev
            },
            None => prev,
        }
    }
}

/// The error for a call missing required fields.
pub open spec fn missing_params_text(tool: Seq<char>, input: Seq<char>, missing: Seq<Seq<char>>) -> Seq<char> {
    "Error: '"@ + tool + "' called without required parameter(s). Received: "@ + input
        + ". Missing required field(s) — "@ + crate::tool_errors::join(missing, "; "@)
        + ". Retry with all required fields supplied."@
}

fn describe_field(name: &String, p: &Option<PropertyDoc>) -> (r: Vec<char>)
    ensures
        r@ == field_desc(name@, *p),
{
    let mut v = str_chars(name.as_str());
    match p {
        Some(d) => {
            let ty: &str = match &d.ty {
                Some(t) => t.as_str(),
                None => "any",
            };
            let desc_empty = match &d.description {
                Some(t) => t.as_str().is_empty(),
                None => true,
            };
            append_str(&mut v, " (");
            append_str(&mut v, ty);
            if desc_empty {
                append_str(&mut v, ")");
            } else {
                append_str(&mut v, "): ");
                match &d.description {
                    Some(t) => append_str(&mut v, t.as_str()),
                    None => {},
                }
            }
        },
        None => {},
    }
    v
}

/// The error for a tool call whose input lacks required fields, or `None` when the schema
/// has no required list (`required` is `None`) or nothing is missing. `input_rendered` is
/// the input as JSON text.
pub fn missing_required_params_error(
    tool_name: &str,
    input_rendered: &str,
    required: Option<&[RequiredField]>,
) -> (r: Option<String>)
    ensures
        match required {
            None => r is None,
            Some(fs) => {
                let m = missing_descs(fs@);
                match r {
                    Some(t) => m.len() > 0 && t@ == missing_params_text(tool_name@, input_rendered@, m),
                    None => m.len() == 0,
                }
            },
        },
{
    let fs = match required {
        Some(fs) => fs,
        None => return None,
    };
    let mut parts: Vec<Vec<char>> = Vec::new();
    let mut i: usize = 0;
    while i < fs.len()
        invariant
            i <= fs@.len(),
            crate::tool_recovery::char_views(parts@) == missing_descs(fs@.take(i as int)),
        decreases fs.len() - i,
    {
        proof {
            assert(fs@.take(i + 1).drop_last() =~= fs@.take(i as int));
            assert(fs@.take(i + 1).last() == fs@[i as int]);
        }
        match &fs[i].name {
            Some(n) => {
                if !fs[i].present {
                    let ghost before = crate::tool_recovery::char_views(parts@);
                    let d = describe_field(n, &fs[i].property);
                    parts.push(d);
                    assert(crate::tool_recovery::char_views(parts@) =~= before.push(d@));
                }
            },
            None => {},
        }
        i = i + 1;
    }
    assert(fs@.take(fs@.len() as int) =~= fs@);
    if parts.len() == 0 {
        return None;
    }
    let mut v = str_chars("Error: '");
    append_str(&mut v, tool_name);
    append_str(&mut v, "' called without required parameter(s). Received: ");
    append_str(&mut v, input_rendered);
    append_str(&mut v, ". Missing required field(s) — ");
    let j = crate::tool_errors::join_chars_pub(&parts, "; ");
    append_chars(&mut v, j.as_slice());
    append_str(&mut v, ". Retry with all required fields supplied.");
    Some(chars_to_string(v.as_slice()))
}

// ---------------------------------------------------------------------------
// Laws
// ---------------------------------------------------------------------------

/// The fully-blocked streak after a sequence of tool rounds, from `start`.
pub open spec fn blocked_streak_after(start: u32, rounds: Seq<Seq<ToolResultEntry>>) -> int
    decreases rounds.len(),
{
    if rounds.len() == 0 {
        start as int
    } else {
        next_blocked_streak(blocked_streak_after(start, rounds.drop_last()) as u32, rounds.last())
    }
}

/// How many of the last rounds, counted back from the end, were fully blocked.
pub open spec fn trailing_blocked(rounds: Seq<Seq<ToolResultEntry>>) -> nat
    decreases rounds.len(),
{
    if rounds.len() == 0 {
        0
    } else if all_blocked(rounds.last()) {
        trailing_blocked(rounds.drop_last()) + 1
    } else {
        0
    }
}

/// From a fresh loop, the fully-blocked streak counts the consecutive fully-blocked rounds
/// at the end, so the loop gives up exactly when the last
/// [`MAX_CONSECUTIVE_ALL_BLOCKED`] rounds were all fully blocked.
pub proof fn law_blocked_exit_after_consecutive_rounds(rounds: Seq<Seq<ToolResultEntry>>)
    requires
        rounds.len() < u32::MAX,
    ensures
        blocked_streak_after(0, rounds) == trailing_blocked(rounds),
        (blocked_streak_after(0, rounds) >= MAX_CONSECUTIVE_ALL_BLOCKED) == (trailing_blocked(rounds)
            >= MAX_CONSECUTIVE_ALL_BLOCKED),
    decreases rounds.len(),
{
    if rounds.len() > 0 {
        law_blocked_exit_after_consecutive_rounds(rounds.drop_last());
        assert(trailing_blocked(rounds.drop_last()) <= rounds.drop_last().len()) by {
            lemma_trailing_le_len(rounds.drop_last());
        }
    }
}

proof fn lemma_trailing_le_len(rounds: Seq<Seq<ToolResultEntry>>)
    ensures
        trailing_blocked(rounds) <= rounds.len(),
    decreases rounds.len(),
{
    if rounds.len() > 0 {
        lemma_trailing_le_len(rounds.drop_last());
    }
}

/// The token-limit streak after `n` more cut-off replies, from `start`.
pub open spec fn max_tokens_streak_after(start: u32, n: nat) -> int
    decreases n,
{
    if n == 0 {
        start as int
    } else {
        next_max_tokens_streak(max_tokens_streak_after(start, (n - 1) as nat) as u32)
    }
}

/// After a tool round resets it, `n` cut-off replies in a row give a streak of `n`, so the
/// partial reply is returned exactly at the `max_continuations`-th one.
pub proof fn law_partial_reply_after_max_continuations(n: nat, max_continuations: u32)
    requires
        n < u32::MAX,
    ensures
        max_tokens_streak_after(0, n) == n,
        (max_tokens_streak_after(0, n) >= max_continuations) == (n >= max_continuations),
    decreases n,
{
    if n > 0 {
        law_partial_reply_after_max_continuations((n - 1) as nat, max_continuations);
    }
}

/// The action re-prompt comes only on the first iteration of a turn in which no tool ran, so
/// it happens at most once per turn; an empty reply is retried only on the first iteration or
/// after a silently failed request.
pub proof fn law_reprompts_and_retries_are_limited(c: LoopControl, r: EndTurnReply, user: Seq<char>)
    ensures
        ({
            let d = end_turn_spec(c, r, user);
            &&& (d.0 == 2 && d.2 == PhantomKind::Action) ==> (c.iteration == 0
                && !c.any_tools_executed)
            &&& d.0 == 1 ==> (c.iteration == 0 || r.silent_failure)
        }),
{
}

/// A finished answer is never blank: a blank reply becomes the empty-reply notice.
pub proof fn law_finished_answer_not_blank(c: LoopControl, r: EndTurnReply, user: Seq<char>)
    ensures
        end_turn_spec(c, r, user).0 == 3 ==> end_turn_spec(c, r, user).3.len() > 0,
{
    reveal_strlit("[Task completed — the agent executed tools but did not produce a text summary.]");
    reveal_strlit("[The model returned an empty response. This usually means the model is overloaded, the context is too large, or the API key lacks credits. Try again or check /status.]");
    let t = r.text@;
    if trim(t).len() > 0 {
        crate::text::lemma_trim_len(t);
    }
}

} // verus!
