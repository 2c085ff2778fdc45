use velo_hub::error::{AppError, ProviderError, RateLimitError, RouterError};
use velo_hub::log_entries::{filter_log_entries, parse_log_line, LogFilter};
use velo_hub::models::{
    ChatCompletionRequest, ChatCompletionResponse, Choice, DecisionAction, DecisionRecord, Message, ModelRedirect,
    Provider, ProviderType, Usage, UsageLog, UsageStatus,
};
use velo_hub::provider::{bearer_header, endpoint_url, status_error, transport_error, validate_anthropic_config, validate_custom_config};
use velo_hub::router::circuit_breaker::CircuitBreaker;
use velo_hub::router::load_balancer::LoadBalancer;
use velo_hub::router::request_router::{
    backoff_ms, estimate_tokens, AttemptOutcome, NextStep, RequestRouter, RouteAttempts, RouteContext, SessionBackend,
};
use velo_hub::server::{convert_response_to_chunks_at, split_whitespace};
use velo_hub::session::SessionStore;

fn provider(id: &str, priority: i32, weight: i32, enabled: bool) -> Provider {
    Provider {
        id: id.to_string(),
        name: format!("P-{}", id),
        provider_type: ProviderType::Custom,
        endpoint: "https://api.example.com/v1/".to_string(),
        api_key: "key-0123456789".to_string(),
        priority,
        weight,
        enabled,
        proxy: None,
        created_at: 0,
        updated_at: 0,
    }
}

fn router() -> RequestRouter {
    RequestRouter::new(LoadBalancer::default(), CircuitBreaker::with_defaults())
}

fn plain_ctx(enabled: Vec<Provider>) -> RouteContext {
    RouteContext { session_backend: None, redirect: None, redirect_target: None, enabled_providers: Ok(enabled) }
}

#[test]
fn route_prefers_session_backend() {
    let mut r = router();
    let mut chain: Vec<DecisionRecord> = Vec::new();
    let ctx = RouteContext {
        session_backend: Some(SessionBackend { backend_id: "s".to_string(), provider: Some(provider("s", 0, 1, true)) }),
        redirect: None,
        redirect_target: None,
        enabled_providers: Ok(vec![provider("a", 5, 1, true)]),
    };
    let sel = r.select_backend_at("gpt-4", ctx, 0, &mut chain).unwrap();
    assert_eq!(sel.provider.id, "s");
    assert_eq!(chain.len(), 1);
    assert_eq!(chain[0].step_number, 1);
    assert_eq!(chain[0].action, DecisionAction::Selected);
    assert_eq!(chain[0].reason, "Reusing backend from session: P-s");
}

#[test]
fn route_records_disabled_session_backend_then_balances() {
    let mut r = router();
    let mut chain: Vec<DecisionRecord> = Vec::new();
    let ctx = RouteContext {
        session_backend: Some(SessionBackend { backend_id: "s".to_string(), provider: Some(provider("s", 0, 1, false)) }),
        redirect: None,
        redirect_target: None,
        enabled_providers: Ok(vec![provider("a", 5, 2, true), provider("b", 1, 1, true)]),
    };
    let sel = r.select_backend_at("gpt-4", ctx, 0, &mut chain).unwrap();
    assert_eq!(sel.provider.id, "a");
    assert_eq!(chain[0].action, DecisionAction::Failed);
    assert_eq!(chain[0].reason, "Previous backend P-s is disabled");
    assert_eq!(chain.len(), 2);
    let d = &chain[1];
    assert_eq!(d.action, DecisionAction::Selected);
    assert_eq!(d.step_number, 2);
    assert_eq!(d.reason, "Selected backend P-a (priority: 5, weight: 2)");
    assert_eq!(d.provider_id, Some("a".to_string()));
}

#[test]
fn route_applies_redirect() {
    let mut r = router();
    let mut chain: Vec<DecisionRecord> = Vec::new();
    let mut rd = ModelRedirect::new("gpt-4".to_string(), "opus-3".to_string(), "t".to_string());
    rd.enabled = true;
    let ctx = RouteContext {
        session_backend: None,
        redirect: Some(rd),
        redirect_target: Some(provider("t", 0, 1, true)),
        enabled_providers: Ok(vec![]),
    };
    let sel = r.select_backend_at("gpt-4", ctx, 0, &mut chain).unwrap();
    assert_eq!(sel.provider.id, "t");
    assert_eq!(chain.len(), 2);
    assert_eq!(chain[0].action, DecisionAction::Redirected);
    assert_eq!(chain[0].reason, "Model redirected from gpt-4 to opus-3");
    assert_eq!(chain[1].reason, "Using redirected provider: P-t");
}

#[test]
fn route_without_providers_is_refused() {
    let mut r = router();
    let mut chain: Vec<DecisionRecord> = Vec::new();
    match r.select_backend_at("gpt-4", plain_ctx(vec![]), 0, &mut chain) {
        Err(AppError::Router(RouterError::NoAvailableBackends(m))) => assert_eq!(m, "gpt-4"),
        other => panic!("unexpected {:?}", other.map(|s| s.provider.id)),
    }
    assert_eq!(chain[0].reason, "No enabled providers available");
}

#[test]
fn route_with_all_breakers_open_is_refused() {
    let mut r = router();
    for _ in 0..5 {
        r.circuit_breaker.record_failure_at("a", 0);
    }
    let mut chain: Vec<DecisionRecord> = Vec::new();
    match r.select_backend_at("gpt-4", plain_ctx(vec![provider("a", 0, 1, true)]), 1, &mut chain) {
        Err(AppError::CircuitBreakerOpen(m)) => assert_eq!(m, "All providers have open circuit breakers"),
        other => panic!("unexpected {:?}", other.map(|s| s.provider.id)),
    }
    assert_eq!(chain[0].action, DecisionAction::CircuitBreakerOpen);
}

#[test]
fn route_retry_skips_excluded() {
    let mut r = router();
    let mut chain: Vec<DecisionRecord> = Vec::new();
    let excluded = vec!["a".to_string()];
    let ctx = RouteContext {
        session_backend: Some(SessionBackend { backend_id: "a".to_string(), provider: Some(provider("a", 9, 1, true)) }),
        redirect: None,
        redirect_target: None,
        enabled_providers: Ok(vec![provider("a", 9, 1, true), provider("b", 0, 1, true)]),
    };
    let sel = r.select_backend_with_exclusions_at("m", ctx, &excluded, 0, &mut chain).unwrap();
    assert_eq!(sel.provider.id, "b");
    // Only the choice of the load balancer is written down on a retry.
    assert_eq!(chain.len(), 1);
    assert_eq!(chain[0].action, DecisionAction::Selected);
    assert_eq!(chain[0].provider_id, Some("b".to_string()));
    let mut chain2: Vec<DecisionRecord> = Vec::new();
    let all = vec!["a".to_string(), "b".to_string()];
    match r.select_backend_with_exclusions_at("m", plain_ctx(vec![provider("a", 0, 1, true), provider("b", 0, 1, true)]), &all, 0, &mut chain2) {
        Err(AppError::Router(RouterError::NoAvailableBackends(_))) => {}
        other => panic!("unexpected {:?}", other.map(|s| s.provider.id)),
    }
    assert_eq!(chain2[0].reason, "No available backends after exclusions");
}

#[test]
fn request_loop_helpers() {
    let req = ChatCompletionRequest {
        model: "m".to_string(),
        messages: vec![
            Message { role: "user".to_string(), content: Some("abcdefgh".to_string()), name: None, tool_calls: None, tool_call_id: None },
            Message { role: "user".to_string(), content: Some("xyz".to_string()), name: None, tool_calls: None, tool_call_id: None },
            Message { role: "user".to_string(), content: None, name: None, tool_calls: None, tool_call_id: None },
        ],
        temperature: None,
        max_tokens: None,
        top_p: None,
        n: None,
        stream: false,
        stop: None,
        presence_penalty: None,
        frequency_penalty: None,
        user: None,
        tools: None,
        tool_choice: None,
    };
    assert_eq!(estimate_tokens(&req), 2 + 0 + 1000);
    assert_eq!(backoff_ms(100, 0), 100);
    assert_eq!(backoff_ms(100, 2), 400);
}

#[test]
fn attempt_failure_records_and_backs_off() {
    let mut r = router();
    let mut excluded: Vec<String> = Vec::new();
    let mut chain: Vec<DecisionRecord> = Vec::new();
    let err = AppError::Provider(ProviderError::Timeout("slow".to_string()));
    let b = r.record_attempt_failure_at(1, "a".to_string(), &err, 0, &mut excluded, &mut chain);
    assert_eq!(b, Some(200));
    assert_eq!(excluded, vec!["a".to_string()]);
    assert_eq!(chain[0].reason, "Request failed: Provider error: Provider request timeout: slow");
    assert_eq!(chain[1].reason, "Retrying after 200ms backoff");
    assert_eq!(chain[1].step_number, 2);
    let last = r.record_attempt_failure_at(3, "b".to_string(), &err, 0, &mut excluded, &mut chain);
    assert_eq!(last, None);
    assert_eq!(chain.len(), 3);
}

#[test]
fn session_store_reuse_and_expiry() {
    let mut store = SessionStore::new(300);
    let (s, created) = store.get_or_create_session_at(None, "b1".to_string(), 1000, "id-1".to_string());
    assert!(created);
    assert_eq!(s.session.id, "id-1");
    let (again, created2) = store.get_or_create_session_at(Some("id-1".to_string()), "b2".to_string(), 1200, "id-2".to_string());
    assert!(!created2);
    assert_eq!(again.session.backend_id, "b1");
    assert_eq!(store.active_session_count_at(1200), 1);
    assert_eq!(store.active_session_count_for_backend_at("b1", 1200), 1);
    assert_eq!(store.active_session_count_for_backend_at("b2", 1200), 0);
    store.add_decision("id-1", DecisionRecord::new(1, DecisionAction::Selected, "x".to_string()));
    assert_eq!(store.get_decision_chain("id-1").len(), 1);
    // Expired 301 s after its last activity.
    let (fresh, created3) = store.get_or_create_session_at(Some("id-1".to_string()), "b3".to_string(), 1301, "id-3".to_string());
    assert!(created3);
    assert_eq!(fresh.session.id, "id-3");
    assert!(store.get_session("id-1").is_none());
    assert_eq!(store.update_activity_at("id-3", 1400), Some(1400));
    let gone = store.cleanup_expired_at(1701);
    assert_eq!(gone, vec!["id-3".to_string()]);
    assert!(store.get_session("id-3").is_none());
}

#[test]
fn response_streams_word_by_word() {
    let resp = ChatCompletionResponse {
        id: "r1".to_string(),
        object: "chat.completion".to_string(),
        created: 0,
        model: "m".to_string(),
        choices: vec![Choice {
            index: 0,
            message: Message { role: "assistant".to_string(), content: Some("  Hello   big\tworld ".to_string()), name: None, tool_calls: None, tool_call_id: None },
            finish_reason: Some("stop".to_string()),
            logprobs: None,
        }],
        usage: Usage::new(1, 2),
        system_fingerprint: None,
    };
    let chunks = convert_response_to_chunks_at(resp, 5);
    assert_eq!(chunks.len(), 6);
    assert_eq!(chunks[0].choices[0].delta.role, Some("assistant".to_string()));
    assert_eq!(chunks[1].choices[0].delta.content, Some("Hello ".to_string()));
    assert_eq!(chunks[3].choices[0].delta.content, Some("world ".to_string()));
    assert_eq!(chunks[4].choices[0].finish_reason, Some("stop".to_string()));
    assert!(chunks[5].choices.is_empty());
    assert_eq!(split_whitespace("\u{3000}a\u{a0}b  "), vec!["a".to_string(), "b".to_string()]);
    // Put together, the streamed contents read as the answer's words.
    let text: String = chunks
        .iter()
        .filter_map(|c| c.choices.first().and_then(|ch| ch.delta.content.clone()))
        .collect();
    assert_eq!(text, "Hello big world ");
    assert_eq!(split_whitespace(&text), split_whitespace("  Hello   big\tworld "));
}

#[test]
fn log_lines_are_read() {
    let e = parse_log_line("2024-01-01T12:00:00Z  INFO velo_hub::router: picked a backend at src/router.rs:42").unwrap();
    assert_eq!(e.timestamp, "2024-01-01T12:00:00Z");
    assert_eq!(e.level, "INFO");
    assert_eq!(e.target, "velo_hub");
    let e = parse_log_line("2024-01-01T12:00:00Z INFO velo_hub::router: picked a backend at src/router.rs:42").unwrap();
    assert_eq!(e.level, "INFO");
    // The target ends at the first colon.
    assert_eq!(e.target, "velo_hub");
    assert_eq!(e.message, ":router: picked a backend");
    assert_eq!(e.file, Some("src/router.rs".to_string()));
    assert_eq!(e.line, Some(42));
    let plain = parse_log_line("t WARN no colon here").unwrap();
    assert_eq!(plain.target, "unknown");
    assert_eq!(plain.message, "no colon here");
    assert!(parse_log_line("one-space only").is_none());
    let filtered = filter_log_entries(
        vec![e.clone(), plain.clone()],
        &LogFilter { level: Some("warn".to_string()), search: Some("COLON".to_string()), limit: None },
    );
    assert_eq!(filtered.len(), 1);
    assert_eq!(filtered[0].message, "no colon here");
    let limited = filter_log_entries(vec![e.clone(), plain.clone()], &LogFilter { level: None, search: None, limit: Some(1) });
    assert_eq!(limited.len(), 1);
    // The most recent entries are kept, in file order.
    assert_eq!(limited[0].message, "no colon here");
    let both = filter_log_entries(vec![e, plain], &LogFilter { level: None, search: None, limit: Some(5) });
    assert_eq!(both.len(), 2);
    assert_eq!(both[0].level, "INFO");
    assert_eq!(both[1].level, "WARN");
}

#[test]
fn padded_level_is_read() {
    let e = parse_log_line("2024-01-01T12:00:00.000Z  INFO target: message").unwrap();
    assert_eq!(e.timestamp, "2024-01-01T12:00:00.000Z");
    assert_eq!(e.level, "INFO");
    assert_eq!(e.target, "target");
    assert_eq!(e.message, "message");
    assert_eq!(e.file, None);
    assert_eq!(e.line, None);
    let w = parse_log_line("2024-01-01T12:00:00.000Z ERROR a::b: failed").unwrap();
    assert_eq!(w.level, "ERROR");
    assert_eq!(w.target, "a");
    assert!(parse_log_line("2024-01-01T12:00:00.000Z   INFO").is_none());
}

#[test]
fn provider_checks_and_errors() {
    let mut p = provider("x", 0, 1, true);
    assert!(validate_anthropic_config(&p).is_ok());
    p.api_key = String::new();
    assert!(validate_anthropic_config(&p).is_err());
    assert!(validate_custom_config(&p).is_ok());
    p.endpoint = "ftp://x".to_string();
    assert!(validate_custom_config(&p).is_err());
    assert_eq!(endpoint_url("https://a.b/v1//", "/messages"), "https://a.b/v1/messages");
    assert_eq!(status_error(429, "429 Too Many Requests", "slow down".to_string()).to_string(), "Provider API error: Rate limited: slow down");
    assert_eq!(status_error(404, "404 Not Found", "nope".to_string()).to_string(), "Provider API error: API error (404 Not Found): nope");
    assert!(matches!(status_error(403, "403 Forbidden", "no".to_string()), ProviderError::AuthenticationFailed(_)));
    assert_eq!(transport_error(false, true, "refused").to_string(), "Provider connection failed: Connection failed: refused");
    assert_eq!(bearer_header(""), None);
    assert_eq!(bearer_header("k"), Some("Bearer k".to_string()));
}

#[test]
fn error_responses() {
    let r = AppError::RateLimit(RateLimitError::RpmExceeded { provider_id: "p".to_string(), retry_after_secs: 7 }).error_response();
    assert_eq!(r.status, 429);
    assert_eq!(r.error.code, "rate_limit_exceeded");
    assert_eq!(r.error.retry_after, Some(7));
    let i = AppError::Internal("secret detail".to_string()).error_response();
    assert_eq!(i.status, 500);
    assert_eq!(i.error.message, "An internal error occurred");
    let n = AppError::NotFound("x".to_string()).error_response();
    assert_eq!(n.status, 404);
}

#[test]
fn usage_log_status() {
    let log = UsageLog::new_at("id".to_string(), None, "p".to_string(), "m".to_string(), &Usage::new(2, 3), 9);
    assert_eq!(log.total_tokens, 5);
    assert_eq!(log.get_status().unwrap(), UsageStatus::Success);
    let failed = log.with_error("boom".to_string());
    assert_eq!(failed.status, "failed");
    assert_eq!(failed.get_status().unwrap(), UsageStatus::Failed);
    let odd: Result<UsageStatus, String> = "weird".parse();
    assert_eq!(odd.unwrap_err(), "Invalid usage status: weird");
}

#[test]
fn request_loop_retries_failures_and_stops() {
    let mut r = router();
    let mut st = RouteAttempts::new();
    let err = || AppError::Provider(ProviderError::ApiError("boom".to_string()));

    // Failures are retried with doubling waits while retries are left.
    for (attempt, wait) in [(0u32, 100u64), (1, 200), (2, 400)] {
        assert_eq!(st.attempt, attempt);
        match r.after_attempt_at(&mut st, AttemptOutcome::Failed(format!("p{}", attempt), err()), 0) {
            NextStep::Retry(ms) => assert_eq!(ms, wait),
            other => panic!("expected a retry, got {:?}", other),
        }
    }
    assert_eq!(st.excluded, vec!["p0".to_string(), "p1".to_string(), "p2".to_string()]);
    assert_eq!(st.chain.len(), 6);
    assert_eq!(st.chain[5].reason, "Retrying after 400ms backoff");

    // The fourth failure ends the request with that failure.
    match r.after_attempt_at(&mut st, AttemptOutcome::Failed("p3".to_string(), err()), 0) {
        NextStep::Finish(Err(e)) => assert_eq!(e.to_string(), "Provider error: Provider API error: boom"),
        other => panic!("expected the end, got {:?}", other),
    }
    assert_eq!(st.attempt, 3);
    assert_eq!(st.chain.len(), 7);
}

#[test]
fn request_loop_does_not_retry_rate_limits() {
    let mut r = router();
    let mut st = RouteAttempts::new();
    let refusal = RateLimitError::RpmExceeded { provider_id: "p".to_string(), retry_after_secs: 3 };
    match r.after_attempt_at(&mut st, AttemptOutcome::RateLimited("p".to_string(), refusal), 0) {
        NextStep::Finish(Err(AppError::RateLimit(RateLimitError::RpmExceeded { retry_after_secs, .. }))) => {
            assert_eq!(retry_after_secs, 3)
        }
        other => panic!("expected a refusal, got {:?}", other),
    }
    assert_eq!(st.chain.len(), 1);
    assert_eq!(st.chain[0].action, DecisionAction::RateLimited);
    assert!(st.excluded.is_empty());

    let mut done = RouteAttempts::new();
    assert!(matches!(r.after_attempt_at(&mut done, AttemptOutcome::Succeeded("p".to_string()), 0), NextStep::Finish(Ok(()))));
    let none = AppError::Router(RouterError::NoAvailableBackends("m".to_string()));
    assert!(matches!(
        r.after_attempt_at(&mut done, AttemptOutcome::NoBackend(none), 0),
        NextStep::Finish(Err(AppError::Router(RouterError::NoAvailableBackends(_))))
    ));
}

#[test]
fn fresh_identifiers_are_uuids() {
    let p = Provider::new("n".to_string(), ProviderType::Anthropic, "https://a".to_string(), "k".to_string());
    assert_eq!(p.id.len(), 36);
    assert_eq!(p.id.matches('-').count(), 4);
    let q = Provider::new("n".to_string(), ProviderType::Anthropic, "https://a".to_string(), "k".to_string());
    assert_ne!(p.id, q.id);
    let rd = ModelRedirect::new("a".to_string(), "b".to_string(), "t".to_string());
    assert_eq!(rd.id.len(), 36);
}

#[test]
fn route_balances_heavy_groups_of_different_priorities() {
    let mut r = router();
    let mut chain: Vec<DecisionRecord> = Vec::new();
    let ctx = plain_ctx(vec![provider("low", 1, i32::MAX, true), provider("high", 2, i32::MAX, true)]);
    let sel = r.select_backend("gpt-4", ctx, &mut chain).unwrap();
    assert_eq!(sel.provider.id, "high");
    assert_eq!(chain.len(), 1);
    assert_eq!(chain[0].action, DecisionAction::Selected);
    assert_eq!(chain[0].provider_id, Some("high".to_string()));
    assert_eq!(chain[0].reason, format!("Selected backend P-high (priority: 2, weight: {})", i32::MAX));
}
