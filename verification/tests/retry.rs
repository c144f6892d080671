use rate_governor::error::{AppError, ErrorKind};
use rate_governor::retry::{
    after_send, classify_status, jitter_delay_ms, needs_jitter, Directive, HttpMethod,
    SendOutcome, StatusClass,
};

#[test]
fn status_classes() {
    assert_eq!(classify_status(200), StatusClass::Success);
    assert_eq!(classify_status(204), StatusClass::Success);
    assert_eq!(classify_status(429), StatusClass::Throttle);
    assert_eq!(classify_status(500), StatusClass::ServerError);
    assert_eq!(classify_status(503), StatusClass::ServerError);
    assert_eq!(classify_status(403), StatusClass::ClientError);
    assert_eq!(classify_status(404), StatusClass::ClientError);
    assert_eq!(classify_status(301), StatusClass::ClientError);
}

#[test]
fn success_is_delivered() {
    assert_eq!(after_send(1, SendOutcome::Response { status: 200 }), Directive::Deliver);
}

#[test]
fn client_error_is_surfaced_immediately() {
    assert_eq!(
        after_send(1, SendOutcome::Response { status: 404 }),
        Directive::Reject { kind: ErrorKind::UpstreamError }
    );
}

#[test]
fn throttle_is_never_surfaced() {
    for attempts in [1u32, 2, 3, 50] {
        assert_eq!(
            after_send(attempts, SendOutcome::Response { status: 429 }),
            Directive::RetryImmediately
        );
    }
}

#[test]
fn transport_failures_back_off_linearly_then_succeed() {
    // Failures on attempt one and two, success on attempt three: the caller
    // receives the successful response, not an error.
    assert_eq!(after_send(1, SendOutcome::TransportError), Directive::RetryAfter { delay_ms: 1000 });
    assert_eq!(after_send(2, SendOutcome::TransportError), Directive::RetryAfter { delay_ms: 2000 });
    assert_eq!(after_send(3, SendOutcome::Response { status: 200 }), Directive::Deliver);
}

#[test]
fn transport_failure_on_all_attempts_is_terminal() {
    // Failures on all three attempts: the third decision is terminal, so no
    // fourth attempt is made.
    assert_eq!(after_send(1, SendOutcome::TransportError), Directive::RetryAfter { delay_ms: 1000 });
    assert_eq!(after_send(2, SendOutcome::TransportError), Directive::RetryAfter { delay_ms: 2000 });
    assert_eq!(
        after_send(3, SendOutcome::TransportError),
        Directive::Reject { kind: ErrorKind::TransportFailure }
    );
}

#[test]
fn server_errors_retry_then_turn_terminal() {
    assert_eq!(
        after_send(1, SendOutcome::Response { status: 502 }),
        Directive::RetryAfter { delay_ms: 1000 }
    );
    assert_eq!(
        after_send(3, SendOutcome::Response { status: 502 }),
        Directive::Reject { kind: ErrorKind::UpstreamError }
    );
}

#[test]
fn jitter_is_mutating_only() {
    assert!(!needs_jitter(HttpMethod::Get));
    assert!(needs_jitter(HttpMethod::Post));
    assert!(needs_jitter(HttpMethod::Patch));
    assert!(needs_jitter(HttpMethod::Delete));
    assert!(needs_jitter(HttpMethod::Put));
}

#[test]
fn jitter_stays_in_window() {
    for _ in 0..200 {
        let d = jitter_delay_ms();
        assert!((100..300).contains(&d));
    }
}

#[test]
fn error_codes_follow_the_taxonomy() {
    assert_eq!(AppError::transport_failure(None).error_code, "network_error");
    assert_eq!(AppError::transport_failure(None).user_message, "Network request failed.");
    assert_eq!(AppError::upstream_error(Some("status 400".to_string())).error_code, "upstream_error");
    assert_eq!(
        AppError::upstream_error(Some("status 400".to_string())).technical_details,
        Some("status 400".to_string())
    );
    assert_eq!(AppError::channel_closed().error_code, "limiter_offline");
    assert_eq!(AppError::response_lost().error_code, "limiter_timeout");
    assert_eq!(AppError::default().error_code, "internal_error");
}

#[test]
fn errors_for_kinds() {
    assert_eq!(
        AppError::for_kind(ErrorKind::TransportFailure, None).error_code,
        "network_error"
    );
    assert_eq!(AppError::for_kind(ErrorKind::UpstreamError, None).error_code, "upstream_error");
    assert_eq!(AppError::for_kind(ErrorKind::ChannelClosed, None).error_code, "limiter_offline");
}

#[test]
fn describe_renders_message_code_and_details() {
    assert_eq!(
        AppError::channel_closed().describe(),
        "Rate limiter connection failure. (limiter_offline)"
    );
    assert_eq!(
        AppError::transport_failure(Some("connection refused".to_string())).describe(),
        "Network request failed. (network_error): connection refused"
    );
}
