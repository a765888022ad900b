use rinfra_plugins::middleware::token_failure;
use rinfra_plugins::error::{AppError, ErrorCode};
use rinfra_plugins::http_client::{method_name, transport_error, BreakerNote, HttpMethod, HttpResponse, RetryAction, RetryState};
use rinfra_plugins::middleware::{
    RequestIdLayer,
    builtin_http_middlewares, cors_allows_any, error_response, extract_client_ip, extract_key, http_audit_record,
    http_outcome, jwt_verdict, metrics_path_label, rate_limit_verdict, tcp_audit_record, translatable, AuditOutcome,
    AuthDecision, AuthHttpMiddleware, AuthState, FileAuditLogger, HeaderExtractor, JwtCheck, MiddlewareConfig,
    MiddlewareInputs, MiddlewareKind, RateLimitResult, RateVerdict, TimeoutHttpMiddleware,
};
use rinfra_plugins::net::{
    middleware_order, TcpAction, TcpEvent, TcpPhase, TcpServer, TcpSession, WsAction, WsEvent, WsMessage, WsPhase,
    WsSession, WsTracker,
};

// ── TCP ─────────────────────────────────────────────────────────────

#[test]
fn tcp_server_settings() {
    let s = TcpServer::new("127.0.0.1:9000".into(), "game".into());
    assert_eq!(s.max_frame_size, 65536);
    let s = s.with_max_frame_size(1024);
    assert_eq!(s.max_frame_size, 1024);
    assert_eq!(s.listener_name, "game");
}

#[test]
fn middleware_order_is_stable() {
    assert_eq!(middleware_order(&[50, 10, 50, 20]), vec![1, 3, 0, 2]);
    assert_eq!(middleware_order(&[]), Vec::<usize>::new());
    assert_eq!(middleware_order(&[3, 3, 3]), vec![0, 1, 2]);
}

#[test]
fn tcp_session_echo_with_two_middlewares() {
    let (mut s, a) = TcpSession::start(2);
    assert_eq!(a, TcpAction::ConnectMiddleware(0));
    assert_eq!(s.step(TcpEvent::Accepted), TcpAction::ConnectMiddleware(1));
    assert_eq!(s.step(TcpEvent::Accepted), TcpAction::ConnectHandler);
    assert_eq!(s.step(TcpEvent::Accepted), TcpAction::ReadFrame);
    assert_eq!(s.step(TcpEvent::Frame(b"hi".to_vec())), TcpAction::Decode(b"hi".to_vec()));
    assert_eq!(s.step(TcpEvent::Transformed(b"hi".to_vec())), TcpAction::Inbound(0, b"hi".to_vec()));
    assert_eq!(s.step(TcpEvent::Passed(Some(b"hi".to_vec()))), TcpAction::Inbound(1, b"hi".to_vec()));
    assert_eq!(s.step(TcpEvent::Passed(Some(b"hi".to_vec()))), TcpAction::Handle(b"hi".to_vec()));
    assert_eq!(s.step(TcpEvent::Replied(Some(b"yo".to_vec()))), TcpAction::Outbound(1, b"yo".to_vec()));
    assert_eq!(s.step(TcpEvent::Passed(Some(b"yo".to_vec()))), TcpAction::Outbound(0, b"yo".to_vec()));
    assert_eq!(s.step(TcpEvent::Passed(Some(b"yo".to_vec()))), TcpAction::Encode(b"yo".to_vec()));
    assert_eq!(s.step(TcpEvent::Transformed(b"YO".to_vec())), TcpAction::Send(b"YO".to_vec()));
    assert_eq!(s.step(TcpEvent::Sent), TcpAction::ReadFrame);
    assert_eq!(s.step(TcpEvent::StreamEnded), TcpAction::DisconnectMiddleware(1));
    assert_eq!(s.step(TcpEvent::Finished), TcpAction::DisconnectMiddleware(0));
    assert_eq!(s.step(TcpEvent::Finished), TcpAction::DisconnectHandler);
    assert_eq!(s.step(TcpEvent::Finished), TcpAction::Release);
    assert_eq!(s.phase, TcpPhase::Closed);
}

#[test]
fn tcp_rejected_connection_releases_without_disconnects() {
    let (mut s, _) = TcpSession::start(1);
    assert_eq!(s.step(TcpEvent::Rejected), TcpAction::Release);
    let (mut s, a) = TcpSession::start(0);
    assert_eq!(a, TcpAction::ConnectHandler);
    assert_eq!(s.step(TcpEvent::Rejected), TcpAction::Release);
}

#[test]
fn tcp_swallowed_and_failed_messages() {
    let (mut s, _) = TcpSession::start(0);
    s.step(TcpEvent::Accepted);
    s.step(TcpEvent::Frame(vec![1]));
    assert_eq!(s.step(TcpEvent::Transformed(vec![1])), TcpAction::Handle(vec![1]));
    assert_eq!(s.step(TcpEvent::Replied(None)), TcpAction::ReadFrame);
    assert_eq!(s.step(TcpEvent::Frame(vec![2])), TcpAction::Decode(vec![2]));
    assert_eq!(s.step(TcpEvent::TransformFailed), TcpAction::DisconnectHandler);
    assert_eq!(s.step(TcpEvent::Sent), TcpAction::Ignore);
}

// ── WebSocket ───────────────────────────────────────────────────────

#[test]
fn test_ws_tracker_connect_disconnect() {
    let mut tracker = WsTracker::new();
    assert_eq!(tracker.active_count(), 0);
    tracker.on_connect();
    assert_eq!(tracker.active_count(), 1);
    tracker.on_connect();
    assert_eq!(tracker.active_count(), 2);
    tracker.on_disconnect();
    assert_eq!(tracker.active_count(), 1);
    tracker.on_disconnect();
    assert_eq!(tracker.active_count(), 0);
}

#[test]
fn ws_tracker_reports_last_disconnect() {
    let mut tracker = WsTracker::new();
    tracker.on_connect();
    tracker.on_connect();
    assert!(!tracker.on_disconnect());
    assert!(tracker.on_disconnect());
}

#[test]
fn ws_session_echo_and_pong_timeout() {
    let mut s = WsSession::new(10, 0);
    assert_eq!(s.step(WsEvent::Opened), WsAction::Wait);
    let m = WsMessage::Text("hello".into());
    assert_eq!(s.step(WsEvent::Received(m.clone())), WsAction::Deliver(m.clone()));
    assert_eq!(s.step(WsEvent::Replied(Some(m.clone()))), WsAction::Send(m));
    assert_eq!(s.step(WsEvent::Sent), WsAction::Wait);
    assert_eq!(s.step(WsEvent::Tick { now_ms: 30_000 }), WsAction::SendPing);
    assert_eq!(s.step(WsEvent::Sent), WsAction::Wait);
    assert_eq!(s.step(WsEvent::Tick { now_ms: 40_000 }), WsAction::SendCloseThenClose);
    assert_eq!(s.step(WsEvent::Finished), WsAction::Leave);
    assert_eq!(s.phase, WsPhase::Closed);
}

#[test]
fn ws_pong_resets_wait_and_close_message_ends() {
    let mut s = WsSession::new(10, 0);
    s.step(WsEvent::Opened);
    s.step(WsEvent::Tick { now_ms: 30_000 });
    s.step(WsEvent::Sent);
    assert_eq!(s.step(WsEvent::PongReceived { now_ms: 31_000 }), WsAction::Wait);
    assert_eq!(s.step(WsEvent::Tick { now_ms: 40_000 }), WsAction::SendPing);
    s.step(WsEvent::Sent);
    assert_eq!(s.step(WsEvent::Received(WsMessage::Close)), WsAction::CallClose);
    let mut s = WsSession::new(10, 0);
    assert_eq!(s.step(WsEvent::OpenFailed), WsAction::Leave);
}

#[test]
fn ws_session_lifecycle_counts_return() {
    let mut tracker = WsTracker::new();
    tracker.on_connect();
    let mut s = WsSession::new(10, 0);
    assert_eq!(s.step(WsEvent::Opened), WsAction::Wait);
    assert_eq!(s.step(WsEvent::Received(WsMessage::Close)), WsAction::CallClose);
    assert_eq!(s.step(WsEvent::Received(WsMessage::Text("late".into()))), WsAction::Ignore);
    assert_eq!(s.step(WsEvent::Finished), WsAction::Leave);
    assert_eq!(s.step(WsEvent::Finished), WsAction::Ignore);
    assert!(tracker.on_disconnect());
    assert_eq!(tracker.active_count(), 0);

    tracker.on_connect();
    let mut s = WsSession::new(10, 0);
    assert_eq!(s.step(WsEvent::Finished), WsAction::Ignore);
    assert_eq!(s.step(WsEvent::OpenFailed), WsAction::Leave);
    assert_eq!(s.phase, WsPhase::Closed);
    tracker.on_disconnect();
    assert_eq!(tracker.active_count(), 0);
}

// ── HTTP middlewares ────────────────────────────────────────────────

fn headers(pairs: &[(&str, &str)]) -> Vec<(String, String)> {
    pairs.iter().map(|(k, v)| (k.to_string(), v.to_string())).collect()
}

#[test]
fn test_extract_key_global() {
    assert_eq!(extract_key("global", &headers(&[]), None), "global");
}

#[test]
fn test_extract_key_header() {
    assert_eq!(extract_key("header:x-api-key", &headers(&[("x-api-key", "my-key")]), None), "my-key");
}

#[test]
fn test_extract_key_header_missing() {
    assert_eq!(extract_key("header:x-api-key", &headers(&[]), None), "unknown");
}

#[test]
fn extract_key_by_peer_ip() {
    assert_eq!(extract_key("ip", &headers(&[]), Some("10.1.2.3".into())), "10.1.2.3");
    assert_eq!(extract_key("ip", &headers(&[]), None), "unknown");
    assert_eq!(extract_key("header:X-Api-Key", &headers(&[("x-api-key", "k")]), None), "k");
}

#[test]
fn rate_limit_verdicts() {
    assert_eq!(rate_limit_verdict(Ok(RateLimitResult { allowed: true, remaining: 99, retry_after_ms: None })), RateVerdict::Allow);
    assert_eq!(
        rate_limit_verdict(Ok(RateLimitResult { allowed: false, remaining: 0, retry_after_ms: Some(2000) })),
        RateVerdict::Deny { retry_after_secs: 2, remaining: 0 }
    );
    assert_eq!(
        rate_limit_verdict(Ok(RateLimitResult { allowed: false, remaining: 3, retry_after_ms: Some(2001) })),
        RateVerdict::Deny { retry_after_secs: 3, remaining: 3 }
    );
    assert_eq!(
        rate_limit_verdict(Ok(RateLimitResult { allowed: false, remaining: 0, retry_after_ms: None })),
        RateVerdict::Deny { retry_after_secs: 1, remaining: 0 }
    );
    assert_eq!(rate_limit_verdict(Err(AppError::from_static(ErrorCode::Internal, "down"))), RateVerdict::Allow);
}

fn auth_state() -> AuthState {
    AuthState::new("test-secret".into(), vec!["/health".into(), "/public".into()])
}

#[test]
fn auth_decisions() {
    let s = auth_state();
    assert!(matches!(s.decide("/health", None), AuthDecision::Pass));
    assert!(matches!(s.decide("/public/info", None), AuthDecision::Pass));
    assert!(matches!(s.decide("/protected", None), AuthDecision::Reject(ErrorCode::AuthTokenMissing)));
    assert!(matches!(s.decide("/protected", Some("Basic abc")), AuthDecision::Reject(ErrorCode::AuthTokenMissing)));
    match s.decide("/protected", Some("Bearer invalid.token.here")) {
        AuthDecision::Verify(t) => assert_eq!(t, "invalid.token.here"),
        _ => panic!("expected a token check"),
    }
    assert_eq!(jwt_verdict(JwtCheck::Valid), Ok(()));
    assert_eq!(jwt_verdict(JwtCheck::Expired), Err(ErrorCode::AuthTokenExpired));
    assert_eq!(jwt_verdict(JwtCheck::Invalid), Err(ErrorCode::AuthTokenInvalid));
}

#[test]
fn error_bodies() {
    let b = error_response(ErrorCode::AuthTokenMissing, "missing or invalid Authorization header");
    assert_eq!(b.status, 401);
    assert_eq!(b.code, "AUTH_TOKEN_MISSING");
    let b = error_response(ErrorCode::RateLimitExceeded, "rate limit exceeded");
    assert_eq!(b.status, 429);
    assert_eq!(b.code, "RATE_LIMIT_EXCEEDED");
}

#[test]
fn audit_records() {
    assert_eq!(http_outcome(200), AuditOutcome::Success);
    assert_eq!(http_outcome(403), AuditOutcome::Denied);
    assert_eq!(http_outcome(404), AuditOutcome::Failure);
    let ip = extract_client_ip(Some(Some(" 1.2.3.4 , 5.6.7.8".into())), Some(Some("9.9.9.9".into())));
    assert_eq!(ip.as_deref(), Some("1.2.3.4"));
    assert_eq!(extract_client_ip(None, Some(Some("9.9.9.9".into()))).as_deref(), Some("9.9.9.9"));
    assert_eq!(extract_client_ip(Some(None), Some(Some("9.9.9.9".into()))), None);
    let r = http_audit_record("GET", "/api/x", 401, None);
    assert_eq!(r.actor, "unknown");
    assert_eq!(r.action, "http.get");
    assert_eq!(r.resource_type, "http");
    assert_eq!(r.resource_id.as_deref(), Some("/api/x"));
    assert_eq!(r.outcome, AuditOutcome::Denied);
    let t = tcp_audit_record("1.2.3.4:5000", "1.2.3.4", false);
    assert_eq!(t.action, "tcp.disconnect");
    assert_eq!(t.ip.as_deref(), Some("1.2.3.4"));
}

#[test]
fn test_logger_name() {
    let logger = FileAuditLogger::new("/tmp/audit.jsonl");
    assert_eq!(logger.logger_name(), "file");
}

#[test]
fn audit_query_selection() {
    let logger = FileAuditLogger::new("/tmp/audit.jsonl");
    assert_eq!(logger.logger_name(), "file");
    assert_eq!(logger.select(&[true, false, true, true], 2), vec![0, 2]);
    assert_eq!(logger.select(&[false, true, true], 0), vec![1]);
    assert_eq!(logger.select(&[false, false], 5), Vec::<usize>::new());
}

#[test]
fn translation_candidates() {
    assert!(translatable(404, Some("application/json; charset=utf-8")));
    assert!(!translatable(200, Some("application/json")));
    assert!(!translatable(500, Some("text/plain")));
    assert!(!translatable(500, None));
}

fn middleware_config() -> MiddlewareConfig {
    MiddlewareConfig {
        auth_enabled: true,
        jwt_secret_env: "JWT_SECRET".into(),
        auth_exclude_paths: vec!["/health".into()],
        rate_limit_enabled: true,
        rate_limit_key_strategy: "global".into(),
        request_id_enabled: true,
        timeout_enabled: true,
        timeout_secs: 30,
        cors_enabled: false,
        cors_allow_origins: vec!["*".into()],
    }
}

#[test]
fn builtin_middlewares_follow_configuration() {
    let inputs = MiddlewareInputs {
        metrics_ready: false,
        metrics_endpoint: "/metrics".into(),
        jwt_secret: "s".into(),
        has_rate_limiter: false,
        telemetry_enabled: false,
        has_audit_logger: true,
        has_i18n: true,
    };
    let ms = builtin_http_middlewares(&middleware_config(), &inputs);
    let kinds: Vec<MiddlewareKind> = ms.iter().map(|m| m.kind()).collect();
    assert_eq!(kinds, vec![
        MiddlewareKind::Auth,
        MiddlewareKind::Trace,
        MiddlewareKind::RequestId,
        MiddlewareKind::Timeout,
        MiddlewareKind::Audit,
        MiddlewareKind::I18nError,
    ]);
    let orders: Vec<i32> = ms.iter().map(|m| m.order()).collect();
    assert_eq!(orders, vec![20, 30, 40, 50, 55, 8]);
    assert_eq!(ms[0].name(), "auth");
    let applied: Vec<&str> = middleware_order(&orders).into_iter().map(|i| ms[i].name()).collect();
    assert_eq!(applied, vec!["i18n_error", "auth", "trace", "request_id", "timeout", "audit"]);
}

#[test]
fn middleware_values() {
    assert_eq!(TimeoutHttpMiddleware::new(30).timeout(), 30);
    let m = AuthHttpMiddleware::new(auth_state());
    assert_eq!(m.state.secret, "test-secret");
    assert!(cors_allows_any(&vec!["*".to_string()]));
    assert!(!cors_allows_any(&vec!["*".to_string(), "https://a".to_string()]));
    assert_eq!(metrics_path_label(Some("/users/{id}"), "/users/7"), "/users/{id}");
    assert_eq!(metrics_path_label(None, "/users/7"), "/users/7");
    let x = HeaderExtractor { headers: headers(&[("traceparent", "00-ab-cd-01"), ("x", "1")]) };
    assert_eq!(x.get("traceparent").as_deref(), Some("00-ab-cd-01"));
    assert_eq!(x.keys(), vec!["traceparent".to_string(), "x".to_string()]);
}

// ── Outbound HTTP ───────────────────────────────────────────────────

fn response(status: u16) -> HttpResponse {
    HttpResponse { status, headers: vec![], body: vec![] }
}

#[test]
fn retries_until_attempts_run_out() {
    let (mut st, first) = RetryState::begin(2, None).unwrap();
    assert!(matches!(first, RetryAction::Send { wait: false }));
    let e = || AppError::from_static(ErrorCode::HttpRequestFailed, "refused");
    assert!(matches!(st.on_result(Err(e())), (BreakerNote::Nothing, RetryAction::Send { wait: true })));
    assert!(matches!(st.on_result(Err(e())), (BreakerNote::Nothing, RetryAction::Send { wait: true })));
    assert!(matches!(st.on_result(Err(e())), (BreakerNote::Nothing, RetryAction::Fail(_))));
}

#[test]
fn breaker_bookkeeping() {
    assert_eq!(RetryState::begin(0, Some(false)).err().unwrap().code, ErrorCode::CircuitBreakerOpen);
    let (mut st, _) = RetryState::begin(0, Some(true)).unwrap();
    assert!(matches!(st.on_result(Ok(response(503))), (BreakerNote::Failure, RetryAction::Return(_))));
    let (mut st, _) = RetryState::begin(0, Some(true)).unwrap();
    assert!(matches!(st.on_result(Ok(response(204))), (BreakerNote::Success, RetryAction::Return(_))));
    let (mut st, _) = RetryState::begin(0, Some(true)).unwrap();
    assert!(matches!(st.on_result(Ok(response(404))), (BreakerNote::Nothing, RetryAction::Return(_))));
    assert_eq!(transport_error(true).code, ErrorCode::HttpTimeout);
    assert_eq!(transport_error(false).code, ErrorCode::HttpRequestFailed);
    assert_eq!(method_name(HttpMethod::Patch), "PATCH");
    assert!(response(299).is_success());
}

#[test]
fn request_ids_are_hyphenated_v4_uuids() {
    let svc = RequestIdLayer.layer(());
    let a = svc.next_request_id();
    let b = svc.next_request_id();
    assert_ne!(a, b);
    let cs: Vec<char> = a.chars().collect();
    assert_eq!(cs.len(), 36);
    for (i, c) in cs.iter().enumerate() {
        if i == 8 || i == 13 || i == 18 || i == 23 {
            assert_eq!(*c, '-');
        } else {
            assert!(c.is_ascii_digit() || ('a'..='f').contains(c));
        }
    }
    assert_eq!(cs[14], '4');
    assert!(['8', '9', 'a', 'b'].contains(&cs[19]));
}

#[test]
fn tokens_are_checked_against_the_secret_and_clock() {
    let state = AuthState { secret: "s3cret".to_string(), exclude_paths: vec![] };
    let now = std::time::SystemTime::now().duration_since(std::time::UNIX_EPOCH).unwrap().as_secs();
    let key = jsonwebtoken::EncodingKey::from_secret(b"s3cret");
    let header = jsonwebtoken::Header::default();
    let mut claims = serde_json::Map::new();
    claims.insert("sub".to_string(), serde_json::Value::from("u1"));
    claims.insert("exp".to_string(), serde_json::Value::from(now + 3600));
    let good = jsonwebtoken::encode(&header, &serde_json::Value::Object(claims.clone()), &key).unwrap();
    assert_eq!(state.check_token(&good).unwrap()["sub"], "u1");
    claims.insert("exp".to_string(), serde_json::Value::from(now - 3600));
    let old = jsonwebtoken::encode(&header, &serde_json::Value::Object(claims), &key).unwrap();
    assert_eq!(state.check_token(&old).unwrap_err().0, ErrorCode::AuthTokenExpired);
    assert_eq!(state.check_token("not.a.token").unwrap_err().0, ErrorCode::AuthTokenInvalid);
    assert_eq!(token_failure(true), ErrorCode::AuthTokenExpired);
    assert_eq!(token_failure(false), ErrorCode::AuthTokenInvalid);
}
