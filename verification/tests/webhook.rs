use payments_core::webhook::{AttemptResult, DeliveryUpdate, RetryPlan, WebhookService, MAX_ATTEMPTS};

#[test]
fn test_sign_payload_known_vector() {
    let sig = WebhookService::sign_payload("The quick brown fox jumps over the lazy dog", "key");
    assert_eq!(sig, "f7bc83f430538424b13298e6aa6fb143ef4d59a14946175997479dbc2d1a3cd8");
}

#[test]
fn test_sign_payload_depends_on_body_and_secret() {
    let a = WebhookService::sign_payload("{\"id\":1}", "secret");
    let b = WebhookService::sign_payload("{\"id\":2}", "secret");
    let c = WebhookService::sign_payload("{\"id\":1}", "other");
    assert_eq!(a.len(), 64);
    assert_ne!(a, b);
    assert_ne!(a, c);
    assert_ne!(a, "{\"id\":1}");
}

#[test]
fn test_verify_signature_accepts_own_signature() {
    let body = "{\"event\":\"payment.completed\"}";
    let sig = WebhookService::sign_payload(body, "whsec");
    assert!(WebhookService::verify_signature(body, "whsec", &sig));
}

#[test]
fn test_verify_signature_rejects_others() {
    let body = "{\"event\":\"payment.completed\"}";
    let sig = WebhookService::sign_payload(body, "whsec");
    assert!(!WebhookService::verify_signature(body, "wrong", &sig));
    assert!(!WebhookService::verify_signature("{}", "whsec", &sig));
    assert!(!WebhookService::verify_signature(body, "whsec", &sig.to_uppercase()));
    assert!(!WebhookService::verify_signature(body, "whsec", "zz"));
    assert!(!WebhookService::verify_signature(body, "whsec", ""));
    assert!(!WebhookService::verify_signature(body, "whsec", &sig[..62]));
}

#[test]
fn test_hash_secret_is_sha256_hex() {
    assert_eq!(
        WebhookService::hash_secret("abc"),
        "ba7816bf8f01cfea414140de5dae2223b00361a396177a9cb410ff61f20015ad"
    );
    assert_ne!(WebhookService::hash_secret("abc"), "abc");
}

#[test]
fn test_validate_url() {
    assert!(WebhookService::validate_url("https://example.org/hook").is_ok());
    assert!(WebhookService::validate_url("http://localhost:8080").is_ok());
    let e = WebhookService::validate_url("ftp://example.org").unwrap_err();
    assert_eq!(e.message(), "Webhook URL must be http(s)");
    assert!(WebhookService::validate_url("HTTPS://example.org").is_err());
    assert!(WebhookService::validate_url("").is_err());
}

#[test]
fn test_check_deleted() {
    assert!(WebhookService::check_deleted(1).is_ok());
    assert_eq!(WebhookService::check_deleted(0).unwrap_err().message(), "Webhook endpoint not found");
}

#[test]
fn test_retry_plan_backoff() {
    // The first retry waits 10 s, then 30 s, 5 min and 30 min.
    assert_eq!(WebhookService::retry_plan(1), RetryPlan::RetryAfter(10));
    assert_eq!(WebhookService::retry_plan(2), RetryPlan::RetryAfter(30));
    assert_eq!(WebhookService::retry_plan(3), RetryPlan::RetryAfter(300));
    assert_eq!(WebhookService::retry_plan(4), RetryPlan::RetryAfter(1800));
    assert_eq!(WebhookService::retry_plan(MAX_ATTEMPTS), RetryPlan::Exhausted);
    assert_eq!(WebhookService::retry_plan(9), RetryPlan::Exhausted);
    // A count below 1 names no failed attempt; it gets the longest delay.
    assert_eq!(WebhookService::retry_plan(0), RetryPlan::RetryAfter(7200));
    assert_eq!(WebhookService::retry_plan(-1), RetryPlan::RetryAfter(7200));
    assert_eq!(WebhookService::backoff_secs(0), 10);
    assert_eq!(WebhookService::backoff_secs(4), 7200);
}

#[test]
fn test_attempt_outcome() {
    match WebhookService::attempt_outcome(0, AttemptResult::Response { status: 204, success: true }) {
        DeliveryUpdate::Delivered { response_status } => assert_eq!(response_status, 204),
        _ => panic!("expected delivered"),
    }
    match WebhookService::attempt_outcome(1, AttemptResult::Response { status: 503, success: false }) {
        DeliveryUpdate::Failed { error_message, response_status, plan } => {
            assert_eq!(error_message, "HTTP 503");
            assert_eq!(response_status, Some(503));
            assert_eq!(plan, RetryPlan::RetryAfter(30));
        }
        _ => panic!("expected failure"),
    }
    match WebhookService::attempt_outcome(4, AttemptResult::TransportError("timed out".to_string())) {
        DeliveryUpdate::Failed { error_message, response_status, plan } => {
            assert_eq!(error_message, "timed out");
            assert_eq!(response_status, None);
            assert_eq!(plan, RetryPlan::Exhausted);
        }
        _ => panic!("expected failure"),
    }
}
