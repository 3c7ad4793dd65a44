//! Retry policy of the agent loop's LLM calls (plain and streaming): what to do after each
//! failed attempt, how long to back off, and the messages that reach the user.
//!
//! The loop itself (the driver call, the sleep, the circuit-breaker bookkeeping and the
//! fallback requests) is outside work; it asks [`next_retry_step`] after each failure.

use vstd::prelude::*;
use crate::agent_policy::{BASE_RETRY_DELAY_MS, MAX_RETRIES};
use crate::text::{append_chars, append_str, chars_to_string, decimal, str_chars, u64_decimal};

verus! {

/// Note attached to a response served by an OpenRouter free-tier model.
pub const OPENROUTER_FALLBACK_NOTE: &'static str =
    "OpenRouter free-tier model (primary rate limited or overloaded)";

/// The error classes the retry policy distinguishes among classified errors.
#[derive(Debug, Clone, Copy, PartialEq, Eq, Structural)]
pub enum ErrorCategory {
    /// The requested model does not exist at the provider.
    ModelNotFound,
    /// The request or response was malformed.
    Format,
    /// Anything else.
    Other,
}

/// How an attempt failed.
pub enum LlmFailure {
    RateLimited { retry_after_ms: u64 },
    Overloaded { retry_after_ms: u64 },
    /// Any other error, as classified: its category, whether it is a billing problem, the
    /// message shown to users, and the raw error text.
    Classified { category: ErrorCategory, is_billing: bool, sanitized_message: String, raw_error: String },
}

/// What the loop does next.
pub enum RetryStep {
    /// Wait `delay_ms` milliseconds, then make the next attempt.
    Retry { delay_ms: u64 },
    /// Record a non-billing failure with the circuit breaker, try the OpenRouter free-tier
    /// models, and when none answers fail with `message`.
    OpenRouterThenFail { message: String },
    /// Record a failure (a billing one when `billing`), try each configured fallback model
    /// in order when `try_fallbacks`, and when none answers fail with `message`.
    Fail { billing: bool, try_fallbacks: bool, message: String },
}

/// `2^n`.
pub open spec fn pow2(n: nat) -> nat
    decreases n,
{
    if n == 0 {
        1
    } else {
        2 * pow2((n - 1) as nat)
    }
}

/// The back-off before attempt `attempt + 1`: the larger of the server's hint and the
/// exponential base delay.
pub open spec fn backoff_ms(attempt: u32, retry_after_ms: u64) -> u64 {
    let base = BASE_RETRY_DELAY_MS * pow2(attempt as nat);
    if retry_after_ms >= base {
        retry_after_ms
    } else {
        base as u64
    }
}

/// Back-off in milliseconds after failed attempt `attempt` (a retry follows only while
/// `attempt < MAX_RETRIES`).
pub fn retry_delay_ms(attempt: u32, retry_after_ms: u64) -> (r: u64)
    requires
        attempt < MAX_RETRIES,
    ensures
        r == backoff_ms(attempt, retry_after_ms),
{
    proof {
        reveal_with_fuel(pow2, 3);
    }
    let base: u64 = if attempt == 0 {
        BASE_RETRY_DELAY_MS
    } else if attempt == 1 {
        BASE_RETRY_DELAY_MS * 2
    } else {
        BASE_RETRY_DELAY_MS * 4
    };
    if retry_after_ms >= base {
        retry_after_ms
    } else {
        base
    }
}

/// The user-facing message of a classified error: format errors carry the raw text too.
pub open spec fn classified_message(category: ErrorCategory, sanitized: Seq<char>, raw: Seq<char>) -> Seq<char> {
    if category == ErrorCategory::Format {
        sanitized + " — raw: "@ + raw
    } else {
        sanitized
    }
}

/// The step after a failed attempt: throttling errors back off until the last attempt, then
/// go to the OpenRouter free tier; classified errors fail at once (model-not-found first
/// tries the configured fallbacks).
pub open spec fn retry_step_spec(attempt: u32, failure: LlmFailure, has_fallbacks: bool) -> (u8, u64, bool, bool, Seq<char>) {
    match failure {
        LlmFailure::RateLimited { retry_after_ms } => if attempt == MAX_RETRIES {
            (1, 0, false, false, "Rate limited after "@ + decimal(MAX_RETRIES as nat) + " retries"@)
        } else {
            (0, backoff_ms(attempt, retry_after_ms), false, false, Seq::<char>::empty())
        },
        LlmFailure::Overloaded { retry_after_ms } => if attempt == MAX_RETRIES {
            (1, 0, false, false, "Model overloaded after "@ + decimal(MAX_RETRIES as nat) + " retries"@)
        } else {
            (0, backoff_ms(attempt, retry_after_ms), false, false, Seq::<char>::empty())
        },
        LlmFailure::Classified { category, is_billing, sanitized_message, raw_error } => (
            2,
            0,
            is_billing,
            category == ErrorCategory::ModelNotFound && has_fallbacks,
            classified_message(category, sanitized_message@, raw_error@),
        ),
    }
}

/// The view of a step: kind (0 retry, 1 OpenRouter then fail, 2 fail), delay, billing,
/// whether to try fallbacks, message.
pub open spec fn step_view(s: RetryStep) -> (u8, u64, bool, bool, Seq<char>) {
    match s {
        RetryStep::Retry { delay_ms } => (0, delay_ms, false, false, Seq::<char>::empty()),
        RetryStep::OpenRouterThenFail { message } => (1, 0, false, false, message@),
        RetryStep::Fail { billing, try_fallbacks, message } => (2, 0, billing, try_fallbacks, message@),
    }
}

fn after_retries_message(prefix: &str) -> (r: String)
    ensures
        r@ == prefix@ + decimal(MAX_RETRIES as nat) + " retries"@,
{
    let mut v = str_chars(prefix);
    let d = u64_decimal(MAX_RETRIES as u64);
    append_chars(&mut v, d.as_slice());
    append_str(&mut v, " retries");
    chars_to_string(v.as_slice())
}

/// Decides what follows failed attempt `attempt` (counting from zero, at most
/// `MAX_RETRIES`).
pub fn next_retry_step(attempt: u32, failure: &LlmFailure, has_fallbacks: bool) -> (r: RetryStep)
    requires
        attempt <= MAX_RETRIES,
    ensures
        step_view(r) == retry_step_spec(attempt, *failure, has_fallbacks),
{
    match failure {
        LlmFailure::RateLimited { retry_after_ms } => if attempt == MAX_RETRIES {
            RetryStep::OpenRouterThenFail { message: after_retries_message("Rate limited after ") }
        } else {
            RetryStep::Retry { delay_ms: retry_delay_ms(attempt, *retry_after_ms) }
        },
        LlmFailure::Overloaded { retry_after_ms } => if attempt == MAX_RETRIES {
            RetryStep::OpenRouterThenFail { message: after_retries_message("Model overloaded after ") }
        } else {
            RetryStep::Retry { delay_ms: retry_delay_ms(attempt, *retry_after_ms) }
        },
        LlmFailure::Classified { category, is_billing, sanitized_message, raw_error } => {
            let message = if *category == ErrorCategory::Format {
                let mut v = str_chars(sanitized_message.as_str());
                append_str(&mut v, " — raw: ");
                append_str(&mut v, raw_error.as_str());
                chars_to_string(v.as_slice())
            } else {
                sanitized_message.clone()
            };
            RetryStep::Fail {
                billing: *is_billing,
                try_fallbacks: *category == ErrorCategory::ModelNotFound && has_fallbacks,
                message,
            }
        },
    }
}

/// The loop makes at most `MAX_RETRIES + 1` attempts: after the last one no failure leads to
/// another retry, and every back-off is at least the server's hint and the exponential base.
pub proof fn law_retries_are_bounded(attempt: u32, failure: LlmFailure, has_fallbacks: bool)
    requires
        attempt <= MAX_RETRIES,
    ensures
        attempt == MAX_RETRIES ==> retry_step_spec(attempt, failure, has_fallbacks).0 != 0,
        retry_step_spec(attempt, failure, has_fallbacks).0 == 0 ==> {
            &&& attempt < MAX_RETRIES
            &&& retry_step_spec(attempt, failure, has_fallbacks).1 >= BASE_RETRY_DELAY_MS * pow2(
                attempt as nat,
            )
            &&& match failure {
                LlmFailure::RateLimited { retry_after_ms } => retry_step_spec(
                    attempt,
                    failure,
                    has_fallbacks,
                ).1 >= retry_after_ms,
                LlmFailure::Overloaded { retry_after_ms } => retry_step_spec(
                    attempt,
                    failure,
                    has_fallbacks,
                ).1 >= retry_after_ms,
                _ => false,
            }
        },
{
    reveal_with_fuel(pow2, 3);
}

/// The message for a provider whose circuit breaker rejects requests.
pub open spec fn cooldown_message_spec(provider: Seq<char>, reason: Seq<char>, retry_after_secs: u64) -> Seq<char> {
    "Provider '"@ + provider + "' is in cooldown ("@ + reason + "). Retry in "@ + decimal(
        retry_after_secs as nat,
    ) + "s."@
}

/// Error text when the circuit breaker rejects a provider.
pub fn cooldown_message(provider: &str, reason: &str, retry_after_secs: u64) -> (r: String)
    ensures
        r@ == cooldown_message_spec(provider@, reason@, retry_after_secs),
{
    let mut v = str_chars("Provider '");
    append_str(&mut v, provider);
    append_str(&mut v, "' is in cooldown (");
    append_str(&mut v, reason);
    append_str(&mut v, "). Retry in ");
    let d = u64_decimal(retry_after_secs);
    append_chars(&mut v, d.as_slice());
    append_str(&mut v, "s.");
    chars_to_string(v.as_slice())
}

/// Note attached to a response served by a configured fallback model.
pub fn fallback_success_note(provider: &str, model: &str) -> (r: String)
    ensures
        r@ == "Fallback "@ + provider@ + "/"@ + model@ + " (primary model not found)"@,
{
    let mut v = str_chars("Fallback ");
    append_str(&mut v, provider);
    append_str(&mut v, "/");
    append_str(&mut v, model);
    append_str(&mut v, " (primary model not found)");
    chars_to_string(v.as_slice())
}

/// The failure when every OpenRouter free-tier model failed.
pub const OPENROUTER_FALLBACKS_FAILED: &'static str = "OpenRouter fallback models failed";

/// The OpenRouter free-tier models tried, in order, when the primary provider is exhausted.
pub fn openrouter_free_fallback_models() -> (r: Vec<&'static str>)
    ensures
        r@.map_values(|m: &'static str| m@) == seq!["stepfun/step-3.5-flash:free"@, "nvidia/nemotron-3-super-120b-a12b:free"@],
{
    let mut v: Vec<&'static str> = Vec::new();
    v.push("stepfun/step-3.5-flash:free");
    v.push("nvidia/nemotron-3-super-120b-a12b:free");
    assert(v@.map_values(|m: &'static str| m@) =~= seq!["stepfun/step-3.5-flash:free"@, "nvidia/nemotron-3-super-120b-a12b:free"@]);
    v
}

/// The failure when the OpenRouter fallback driver could not be built.
pub fn openrouter_driver_failure(error: &str) -> (r: String)
    ensures
        r@ == "OpenRouter fallback driver init failed: "@ + error@,
{
    let mut v = str_chars("OpenRouter fallback driver init failed: ");
    append_str(&mut v, error);
    chars_to_string(v.as_slice())
}

} // verus!
