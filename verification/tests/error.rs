use agentsdk::error::{AgentSdkError, ApiError};

#[test]
fn test_stream_surfaces_midstream_error_chunk() {
    let e1 = AgentSdkError::ApiError(ApiError::Stream {
        message: "Rate limit exceeded: free models per day".into(),
        code: Some(429),
    });
    let e2 = AgentSdkError::ApiError(ApiError::Stream {
        message: "Rate limit exceeded: free models per day".into(),
        code: None,
    });
    assert_eq!(e1.status_code(), Some(429));
    assert_eq!(e2.status_code(), None);
    assert!(!e1.is_transport());
}

#[test]
fn status_codes_come_from_the_provider_answer() {
    let s = AgentSdkError::ApiError(ApiError::Status { status: 503, body: "busy".into() });
    assert_eq!(s.status_code(), Some(503));
    let odd = AgentSdkError::ApiError(ApiError::Stream { message: "x".into(), code: Some(42) });
    assert_eq!(odd.status_code(), None);
    let c = AgentSdkError::ConfigError("missing".into());
    assert_eq!(c.status_code(), None);
    assert!(!c.is_transport());
    assert_eq!(c.message().as_deref(), Some("Configuration error: missing"));
}
