use openfang_runtime::llm_retry::{
    cooldown_message, fallback_success_note, next_retry_step, retry_delay_ms, ErrorCategory,
    LlmFailure, RetryStep, OPENROUTER_FALLBACK_NOTE,
};

#[test]
fn backoff_doubles_and_respects_hint() {
    assert_eq!(retry_delay_ms(0, 0), 1000);
    assert_eq!(retry_delay_ms(1, 0), 2000);
    assert_eq!(retry_delay_ms(2, 0), 4000);
    assert_eq!(retry_delay_ms(0, 5000), 5000);
    assert_eq!(retry_delay_ms(2, 3999), 4000);
}

#[test]
fn throttling_retries_then_goes_to_openrouter() {
    let f = LlmFailure::RateLimited { retry_after_ms: 0 };
    match next_retry_step(1, &f, false) {
        RetryStep::Retry { delay_ms } => assert_eq!(delay_ms, 2000),
        _ => panic!("expected a retry"),
    }
    match next_retry_step(3, &f, true) {
        RetryStep::OpenRouterThenFail { message } => {
            assert_eq!(message, "Rate limited after 3 retries")
        }
        _ => panic!("expected the OpenRouter fallback"),
    }
    let o = LlmFailure::Overloaded { retry_after_ms: 7 };
    match next_retry_step(3, &o, false) {
        RetryStep::OpenRouterThenFail { message } => {
            assert_eq!(message, "Model overloaded after 3 retries")
        }
        _ => panic!("expected the OpenRouter fallback"),
    }
}

#[test]
fn classified_errors_fail_at_once() {
    let nf = LlmFailure::Classified {
        category: ErrorCategory::ModelNotFound,
        is_billing: false,
        sanitized_message: "Model not found".to_string(),
        raw_error: "404".to_string(),
    };
    match next_retry_step(0, &nf, true) {
        RetryStep::Fail { billing, try_fallbacks, message } => {
            assert!(!billing);
            assert!(try_fallbacks);
            assert_eq!(message, "Model not found");
        }
        _ => panic!("expected failure"),
    }
    match next_retry_step(0, &nf, false) {
        RetryStep::Fail { try_fallbacks, .. } => assert!(!try_fallbacks),
        _ => panic!("expected failure"),
    }
    let fmt = LlmFailure::Classified {
        category: ErrorCategory::Format,
        is_billing: true,
        sanitized_message: "Bad request".to_string(),
        raw_error: "unexpected token".to_string(),
    };
    match next_retry_step(2, &fmt, true) {
        RetryStep::Fail { billing, try_fallbacks, message } => {
            assert!(billing);
            assert!(!try_fallbacks);
            assert_eq!(message, "Bad request — raw: unexpected token");
        }
        _ => panic!("expected failure"),
    }
}

#[test]
fn user_facing_notes() {
    assert_eq!(
        cooldown_message("groq", "rate limits", 42),
        "Provider 'groq' is in cooldown (rate limits). Retry in 42s."
    );
    assert_eq!(
        fallback_success_note("openai", "gpt-4o-mini"),
        "Fallback openai/gpt-4o-mini (primary model not found)"
    );
    assert!(OPENROUTER_FALLBACK_NOTE.starts_with("OpenRouter free-tier"));
}

#[test]
fn openrouter_fallback_models_in_order() {
    assert_eq!(
        openfang_runtime::llm_retry::openrouter_free_fallback_models(),
        vec!["stepfun/step-3.5-flash:free", "nvidia/nemotron-3-super-120b-a12b:free"]
    );
    assert_eq!(
        openfang_runtime::llm_retry::openrouter_driver_failure("no key"),
        "OpenRouter fallback driver init failed: no key"
    );
    assert_eq!(openfang_runtime::llm_retry::OPENROUTER_FALLBACKS_FAILED, "OpenRouter fallback models failed");
}
