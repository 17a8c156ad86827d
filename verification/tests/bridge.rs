use greentic_dw::bridge::{
    build_response, dispatch_headers, invoke_failure, request_topic, response_topic, InvokeOutcome, RUNTIME_NAME,
};

#[test]
fn subjects_use_operala_runtime_name() {
    assert_eq!(request_topic(RUNTIME_NAME), "greentic.operala.request.v1");
    assert_eq!(response_topic(RUNTIME_NAME), "greentic.operala.response.v1");
}

#[test]
fn idempotency_falls_back_to_correlation() {
    let h = dispatch_headers(Some("corr-1".to_string()), None, Some("acme".to_string()), Some("prod".to_string()));
    assert_eq!(h.correlation.as_deref(), Some("corr-1"));
    assert_eq!(h.idempotency.as_deref(), Some("corr-1"));
    assert_eq!(h.tenant, "acme");
    assert_eq!(h.env, "prod");
}

#[test]
fn explicit_idempotency_and_missing_headers() {
    let h = dispatch_headers(Some("corr-1".to_string()), Some("idem-9".to_string()), None, None);
    assert_eq!(h.idempotency.as_deref(), Some("idem-9"));
    assert_eq!(h.tenant, "");
    assert_eq!(h.env, "default");
    let none = dispatch_headers(None, None, None, None);
    assert!(none.correlation.is_none() && none.idempotency.is_none());
}

#[test]
fn build_response_maps_success() {
    let resp = build_response(Ok(InvokeOutcome {
        ok: true,
        output: r#"{"reply":"planned"}"#.to_string(),
        events: vec![],
    }));
    assert!(resp.ok);
    assert_eq!(resp.output, r#"{"reply":"planned"}"#);
    assert!(resp.error.is_none());
}

#[test]
fn build_response_maps_error() {
    let resp = build_response(Err("deep loop blew up".to_string()));
    assert!(!resp.ok);
    assert_eq!(resp.output, "null");
    assert!(resp.events.is_empty());
    let err = resp.error.expect("error present");
    assert_eq!(err.code, "invoke_failed");
    assert!(err.message.contains("deep loop blew up"));
    assert_eq!(invoke_failure("deep loop blew up".to_string()), err);
}
