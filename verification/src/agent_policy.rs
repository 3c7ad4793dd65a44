//! Decisions the agent loop takes on plain values: retry and timeout limits, detection of
//! hallucinated actions and silent completions, model-id prefix stripping, the engine
//! switch, and canonical tool names for graph storage.

use vstd::prelude::*;
use crate::text::{
    ascii_lower, contains, contains_str, eq_str, lower_chars, owned, starts_with, str_chars,
    sub_string, trim, trim_range, unicode_lower, lowercase_chars, sub_vec, match_at,
    chars_to_string, string_views, replace_all, replace_str,
};
use crate::semantic_tags::{tag_tool_names, tag_views, tool_name_tags, TagNs};

verus! {

/// Maximum retries for rate-limited or overloaded API calls.
pub const MAX_RETRIES: u32 = 3;

/// Base delay for exponential backoff (milliseconds).
pub const BASE_RETRY_DELAY_MS: u64 = 1000;

/// Timeout for individual tool executions (seconds). Long-running jobs should use the
/// persistent process tools instead.
pub const TOOL_TIMEOUT_SECS: u64 = 300;

/// Timeout for inter-agent tool calls (seconds): delegation can run a full agent loop on the
/// target.
pub const AGENT_TOOL_TIMEOUT_SECS: u64 = 600;

/// Agent lifecycle phase within the execution loop.
#[derive(Debug, Clone, PartialEq)]
pub enum LoopPhase {
    /// Agent is calling the LLM.
    Thinking,
    /// Agent is executing a tool.
    ToolUse { tool_name: String },
    /// Agent is streaming tokens.
    Streaming,
    /// Agent finished successfully.
    Done,
    /// Agent encountered an error.
    Error,
}

// ---------------------------------------------------------------------------
// Tool timeouts
// ---------------------------------------------------------------------------

/// The timeout, in seconds, that a tool call gets.
pub open spec fn tool_timeout_secs(name: Seq<char>) -> u64 {
    if name == "agent_send"@ || name == "agent_spawn"@ {
        AGENT_TOOL_TIMEOUT_SECS
    } else if name == "document_extract"@ || name == "spreadsheet_build"@ {
        180
    } else if name == "channel_send"@ || name == "channel_stream"@ {
        30
    } else if name == "process_start"@ || name == "process_poll"@ || name == "process_write"@
        || name == "process_kill"@ || name == "process_list"@ {
        30
    } else {
        // media generation, remote agents, `shell_exec` and every other tool
        TOOL_TIMEOUT_SECS
    }
}

/// Timeout (in whole seconds) for one execution of the named tool. Inter-agent calls get a
/// longer timeout since they may trigger full agent loops.
pub fn tool_timeout_for(tool_name: &str) -> (r: u64)
    ensures
        r == tool_timeout_secs(tool_name@),
{
    let v = str_chars(tool_name);
    let s = v.as_slice();
    if eq_str(s, "agent_send") || eq_str(s, "agent_spawn") {
        AGENT_TOOL_TIMEOUT_SECS
    } else if eq_str(s, "document_extract") || eq_str(s, "spreadsheet_build") {
        180
    } else if eq_str(s, "channel_send") || eq_str(s, "channel_stream") {
        30
    } else if eq_str(s, "process_start") || eq_str(s, "process_poll") || eq_str(
        s,
        "process_write",
    ) || eq_str(s, "process_kill") || eq_str(s, "process_list") {
        30
    } else {
        TOOL_TIMEOUT_SECS
    }
}


// ---------------------------------------------------------------------------
// Hallucinated-action detection
// ---------------------------------------------------------------------------

/// Whether some name in `tools` is `n`.
pub open spec fn has_name(tools: Seq<String>, n: Seq<char>) -> bool {
    exists|i: int| 0 <= i < tools.len() && #[trigger] tools[i]@ == n
}

/// Whether one of `tools` is `n`.
pub fn names_contain(tools: &[String], n: &str) -> (r: bool)
    ensures
        r == has_name(tools@, n@),
{
    let target = owned(n);
    let mut i: usize = 0;
    while i < tools.len()
        invariant
            i <= tools@.len(),
            target@ == n@,
            forall|j: int| 0 <= j < i ==> tools@[j]@ != n@,
        decreases tools.len() - i,
    {
        if tools[i] == target {
            return true;
        }
        i = i + 1;
    }
    false
}

/// The lowercase text claims a message was sent through some channel.
pub open spec fn claims_delivery(lower: Seq<char>) -> bool {
    let has_action = contains(lower, "sent "@) || contains(lower, "posted "@) || contains(
        lower,
        "emailed "@,
    ) || contains(lower, "delivered "@) || contains(lower, "forwarded "@);
    let has_channel = contains(lower, "telegram"@) || contains(lower, "whatsapp"@) || contains(
        lower,
        "slack"@,
    ) || contains(lower, "discord"@) || contains(lower, "email"@) || contains(lower, "channel"@)
        || contains(lower, "message sent"@) || contains(lower, "successfully sent"@) || contains(
        lower,
        "has been sent"@,
    );
    has_action && has_channel
}

/// Detects a reply that claims an action (sent, posted, emailed, ...) through a channel,
/// which is a hallucinated completion when no tool was called.
pub fn phantom_action_detected(text: &str) -> (r: bool)
    ensures
        r == claims_delivery(unicode_lower(text@)),
{
    let t = str_chars(text);
    let lv = lowercase_chars(t.as_slice());
    let l = lv.as_slice();
    let has_action = contains_str(l, "sent ") || contains_str(l, "posted ") || contains_str(
        l,
        "emailed ",
    ) || contains_str(l, "delivered ") || contains_str(l, "forwarded ");
    let has_channel = contains_str(l, "telegram") || contains_str(l, "whatsapp") || contains_str(
        l,
        "slack",
    ) || contains_str(l, "discord") || contains_str(l, "email") || contains_str(l, "channel")
        || contains_str(l, "message sent") || contains_str(l, "successfully sent")
        || contains_str(l, "has been sent");
    has_action && has_channel
}

/// The lowercase text claims a process was started.
pub open spec fn claims_process_start(lower: Seq<char>) -> bool {
    contains(lower, "is up in background"@) || contains(lower, "started it now"@) || contains(
        lower,
        "starting it now"@,
    ) || contains(lower, "starting now"@) || contains(lower, "started now"@) || contains(
        lower,
        "proc_1 is up"@,
    ) || contains(lower, "process started"@) || contains(lower, "bot started"@) || contains(
        lower,
        "is now running"@,
    ) || contains(lower, "is now up"@)
}

/// The lowercase text claims a process was killed or stopped.
pub open spec fn claims_process_stop(lower: Seq<char>) -> bool {
    contains(lower, "killed it"@) || contains(lower, "stopped the bot"@) || contains(
        lower,
        "process stopped"@,
    ) || contains(lower, "process killed"@) || contains(lower, "is now stopped"@)
}

/// A start claim without `process_start`, or a stop claim without `process_kill` /
/// `process_stop`.
pub open spec fn process_phantom(lower: Seq<char>, tools: Seq<String>) -> bool {
    (!has_name(tools, "process_start"@) && claims_process_start(lower)) || (!has_name(
        tools,
        "process_kill"@,
    ) && !has_name(tools, "process_stop"@) && claims_process_stop(lower))
}

/// Detects a reply that claims to have started or stopped a process without the matching
/// process tool having been called this turn (other tools may have run).
pub fn process_phantom_detected(text: &str, tools_called: &[String]) -> (r: bool)
    ensures
        r == process_phantom(unicode_lower(text@), tools_called@),
{
    let t = str_chars(text);
    let lv = lowercase_chars(t.as_slice());
    let l = lv.as_slice();
    if !names_contain(tools_called, "process_start") {
        let start = contains_str(l, "is up in background") || contains_str(l, "started it now")
            || contains_str(l, "starting it now") || contains_str(l, "starting now")
            || contains_str(l, "started now") || contains_str(l, "proc_1 is up") || contains_str(
            l,
            "process started",
        ) || contains_str(l, "bot started") || contains_str(l, "is now running")
            || contains_str(l, "is now up");
        if start {
            return true;
        }
    }
    if !names_contain(tools_called, "process_kill") && !names_contain(tools_called, "process_stop") {
        let stop = contains_str(l, "killed it") || contains_str(l, "stopped the bot")
            || contains_str(l, "process stopped") || contains_str(l, "process killed")
            || contains_str(l, "is now stopped");
        if stop {
            return true;
        }
    }
    false
}

/// One of the scheduling tools.
pub open spec fn is_schedule_tool(n: Seq<char>) -> bool {
    n == "schedule_create"@ || n == "schedule_list"@ || n == "schedule_delete"@ || n
        == "cron_create"@ || n == "cron_list"@ || n == "cron_cancel"@
}

/// The lowercase user message asks for recurring / scheduled work.
pub open spec fn asks_for_schedule(u: Seq<char>) -> bool {
    (contains(u, "schedule"@) || contains(u, "cron"@)) && (contains(u, "every "@) || contains(
        u,
        "daily"@,
    ) || contains(u, "weekly"@) || contains(u, "recurring"@) || contains(u, "attach"@)
        || contains(u, "ainl"@) || contains(u, "timer"@))
}

/// The lowercase assistant text claims that something was scheduled.
pub open spec fn claims_scheduled(a: Seq<char>) -> bool {
    contains(a, "scheduled"@) || contains(a, "cron job"@) || contains(a, "set up a schedule"@) || (
    contains(a, "added to"@) && (contains(a, "scheduler"@) || contains(a, "schedule"@)))
        || contains(a, "will run every"@) || contains(a, "runs every"@) || (contains(
        a,
        "created"@,
    ) && contains(a, "job"@) && contains(a, "recur"@))
}

/// No scheduling tool ran, the user asked for recurring work, and the reply claims it was
/// scheduled.
pub open spec fn scheduling_phantom(user_lower: Seq<char>, asst_lower: Seq<char>, tools: Seq<String>) -> bool {
    &&& !(exists|i: int| 0 <= i < tools.len() && is_schedule_tool(#[trigger] tools[i]@))
    &&& asks_for_schedule(user_lower)
    &&& claims_scheduled(asst_lower)
}

fn any_schedule_tool(tools: &[String]) -> (r: bool)
    ensures
        r == exists|i: int| 0 <= i < tools@.len() && is_schedule_tool(#[trigger] tools@[i]@),
{
    let mut i: usize = 0;
    while i < tools.len()
        invariant
            i <= tools@.len(),
            forall|j: int| 0 <= j < i ==> !is_schedule_tool(#[trigger] tools@[j]@),
        decreases tools.len() - i,
    {
        let nv = str_chars(tools[i].as_str());
        let n = nv.as_slice();
        if eq_str(n, "schedule_create") || eq_str(n, "schedule_list") || eq_str(
            n,
            "schedule_delete",
        ) || eq_str(n, "cron_create") || eq_str(n, "cron_list") || eq_str(n, "cron_cancel") {
            assert(is_schedule_tool(tools@[i as int]@));
            return true;
        }
        i = i + 1;
    }
    false
}

/// The user asked to register recurring work and the reply implies it was done, while no
/// `schedule_*` / `cron_*` tool ran this turn.
pub fn scheduling_phantom_detected(user_message: &str, assistant_text: &str, tools_called: &[String]) -> (r: bool)
    ensures
        r == scheduling_phantom(unicode_lower(user_message@), unicode_lower(assistant_text@), tools_called@),
{
    if any_schedule_tool(tools_called) {
        return false;
    }
    let uv = str_chars(user_message);
    let ulv = lowercase_chars(uv.as_slice());
    let u = ulv.as_slice();
    let intent = (contains_str(u, "schedule") || contains_str(u, "cron")) && (contains_str(
        u,
        "every ",
    ) || contains_str(u, "daily") || contains_str(u, "weekly") || contains_str(u, "recurring")
        || contains_str(u, "attach") || contains_str(u, "ainl") || contains_str(u, "timer"));
    if !intent {
        return false;
    }
    let av = str_chars(assistant_text);
    let alv = lowercase_chars(av.as_slice());
    let a = alv.as_slice();
    contains_str(a, "scheduled") || contains_str(a, "cron job") || contains_str(
        a,
        "set up a schedule",
    ) || (contains_str(a, "added to") && (contains_str(a, "scheduler") || contains_str(
        a,
        "schedule",
    ))) || contains_str(a, "will run every") || contains_str(a, "runs every") || (contains_str(
        a,
        "created",
    ) && contains_str(a, "job") && contains_str(a, "recur"))
}

// ---------------------------------------------------------------------------
// Silent completion
// ---------------------------------------------------------------------------

/// `NO_REPLY` exactly, or `[SILENT]` in any ASCII case, once surrounding whitespace is
/// trimmed.
pub open spec fn silent_token(text: Seq<char>) -> bool {
    trim(text) == "NO_REPLY"@ || ascii_lower(trim(text)) == "[silent]"@
}

/// True when the reply indicates an intentional silent completion.
pub fn is_silent_token(text: &str) -> (r: bool)
    ensures
        r == silent_token(text@),
{
    let v = str_chars(text);
    let (a, b) = trim_range(v.as_slice(), 0, v.len());
    assert(v@.subrange(0, v@.len() as int) =~= v@);
    let t = sub_vec(v.as_slice(), a, b);
    let lt = lower_chars(t.as_slice());
    eq_str(t.as_slice(), "NO_REPLY") || eq_str(lt.as_slice(), "[silent]")
}


// ---------------------------------------------------------------------------
// Model ids and the engine switch
// ---------------------------------------------------------------------------

/// `model` without a leading `provider/` or (failing that) `provider:`.
pub open spec fn stripped_model(model: Seq<char>, provider: Seq<char>) -> Seq<char> {
    let slash = provider.push('/');
    let colon = provider.push(':');
    if starts_with(model, slash) {
        model.skip(slash.len() as int)
    } else if starts_with(model, colon) {
        model.skip(colon.len() as int)
    } else {
        model
    }
}

/// Strip a provider prefix from a model id before sending it to the API: models are stored
/// as `provider/org/model` but the upstream API expects `org/model`.
pub fn strip_provider_prefix(model: &str, provider: &str) -> (r: String)
    ensures
        r@ == stripped_model(model@, provider@),
{
    let mv = str_chars(model);
    let m = mv.as_slice();
    let mut slash = str_chars(provider);
    let mut colon = str_chars(provider);
    slash.push('/');
    colon.push(':');
    if match_at(m, 0, slash.as_slice()) {
        sub_string(m, slash.len(), m.len())
    } else if match_at(m, 0, colon.as_slice()) {
        sub_string(m, colon.len(), m.len())
    } else {
        owned(model)
    }
}

/// Whether the ainl runtime engine handles the turn: the kill switch wins, otherwise the
/// manifest flag or the environment value `1` turns it on.
pub open spec fn engine_switch_active(manifest_enabled: bool, env: Option<Seq<char>>, env_disabled: bool) -> bool {
    !env_disabled && (manifest_enabled || env == Some("1"@))
}

/// The engine switch, from the manifest flag, the `AINL_RUNTIME_ENGINE` value (if set) and
/// the kill switch.
pub fn ainl_runtime_engine_switch_active_with_env(
    manifest_enabled: bool,
    ainl_runtime_engine_env: Option<&str>,
    env_disabled: bool,
) -> (r: bool)
    ensures
        r == engine_switch_active(
            manifest_enabled,
            match ainl_runtime_engine_env {
                Some(v) => Some(v@),
                None => None,
            },
            env_disabled,
        ),
{
    if env_disabled {
        return false;
    }
    if manifest_enabled {
        return true;
    }
    match ainl_runtime_engine_env {
        Some(v) => {
            let vv = str_chars(v);
            eq_str(vv.as_slice(), "1")
        },
        None => false,
    }
}


// ---------------------------------------------------------------------------
// Canonical tool names
// ---------------------------------------------------------------------------

/// The values of the tool-namespace tags, each once, in first-seen order.
pub open spec fn canonical_names(tags: Seq<(TagNs, Seq<char>)>) -> Seq<Seq<char>>
    decreases tags.len(),
{
    if tags.len() == 0 {
        seq![]
    } else {
        let prev = canonical_names(tags.drop_last());
        let t = tags.last();
        if t.0 != TagNs::Tool || prev.contains(t.1) {
            prev
        } else {
            prev.push(t.1)
        }
    }
}

/// Normalizes per-turn tool names for graph episode storage through the semantic tagger's
/// tool tags: plain canonical slugs (for example `bash`), deduplicated in first-seen order.
pub fn canonicalize_turn_tool_names_for_graph_storage(raw: &[String]) -> (r: Vec<String>)
    ensures
        string_views(r@) == canonical_names(tool_name_tags(string_views(raw@))),
{
    let tags = tag_tool_names(raw);
    let ghost tv = tag_views(tags@);
    let mut out: Vec<String> = Vec::new();
    let mut i: usize = 0;
    while i < tags.len()
        invariant
            i <= tags@.len(),
            tv == tag_views(tags@),
            string_views(out@) == canonical_names(tv.take(i as int)),
        decreases tags.len() - i,
    {
        proof {
            assert(tv.take(i + 1).drop_last() =~= tv.take(i as int));
            assert(tv.take(i + 1).last() == (tags@[i as int].0, tags@[i as int].1@));
        }
        if tags[i].0 == TagNs::Tool {
            let ns = tags[i].1.clone();
            let mut seen = false;
            let mut j: usize = 0;
            while j < out.len()
                invariant
                    j <= out@.len(),
                    ns@ == tags@[i as int].1@,
                    !seen ==> forall|k: int| 0 <= k < j ==> out@[k]@ != ns@,
                    seen ==> string_views(out@).contains(ns@),
                decreases out.len() - j,
            {
                if out[j] == ns {
                    seen = true;
                    assert(string_views(out@)[j as int] == ns@);
                }
                j = j + 1;
            }
            if !seen {
                proof {
                    assert(!string_views(out@).contains(ns@)) by {
                        if string_views(out@).contains(ns@) {
                            let k = choose|k: int| 0 <= k < string_views(out@).len() && string_views(out@)[k] == ns@;
                            assert(out@[k]@ == ns@);
                        }
                    }
                }
                let ghost before = string_views(out@);
                out.push(ns);
                proof {
                    assert(string_views(out@) =~= before.push(tags@[i as int].1@));
                }
            }
        }
        i = i + 1;
    }
    assert(tv.take(tags@.len() as int) =~= tv);
    out
}

/// The canonical tool names of a turn are pairwise distinct.
pub proof fn law_canonical_tool_names_distinct(tags: Seq<(TagNs, Seq<char>)>)
    ensures
        canonical_names(tags).no_duplicates(),
    decreases tags.len(),
{
    if tags.len() > 0 {
        law_canonical_tool_names_distinct(tags.drop_last());
    }
}


// ---------------------------------------------------------------------------
// XML entities in recovered tool calls
// ---------------------------------------------------------------------------

/// The five predefined XML entities decoded, in the order `&quot;`, `&amp;`, `&lt;`, `&gt;`,
/// `&apos;` (each pass over the result of the previous one).
pub open spec fn unescaped_xml(s: Seq<char>) -> Seq<char> {
    replace_all(
        replace_all(
            replace_all(replace_all(replace_all(s, "&quot;"@, "\""@), "&amp;"@, "&"@), "&lt;"@, "<"@),
            "&gt;"@,
            ">"@,
        ),
        "&apos;"@,
        "'"@,
    )
}

/// Decodes the predefined XML entities in a recovered parameter value.
pub fn unescape_xml_entities(text: &str) -> (r: String)
    ensures
        r@ == unescaped_xml(text@),
{
    proof {
        reveal_strlit("&quot;");
        reveal_strlit("&amp;");
        reveal_strlit("&lt;");
        reveal_strlit("&gt;");
        reveal_strlit("&apos;");
    }
    let v = str_chars(text);
    let a = replace_str(v.as_slice(), "&quot;", "\"");
    let b = replace_str(a.as_slice(), "&amp;", "&");
    let c = replace_str(b.as_slice(), "&lt;", "<");
    let d = replace_str(c.as_slice(), "&gt;", ">");
    let e = replace_str(d.as_slice(), "&apos;", "'");
    chars_to_string(e.as_slice())
}

} // verus!
