use warpllm::error::{Error, ProviderError};
use warpllm::gateway::classify::{classify, ErrorKind, Vocabulary};

/// A protocol that answers on every tier, so a provider rule can be shown to
/// win or lose against each one independently.
fn protocol() -> Vocabulary {
    Vocabulary {
        codes: vec![("known_code".to_string(), ErrorKind::ContentFilter)],
        statuses: vec![(429, ErrorKind::RateLimited)],
        types: vec![("known_type".to_string(), ErrorKind::ServerError)],
    }
}

fn provider_status() -> Vocabulary {
    Vocabulary { codes: vec![], statuses: vec![(402, ErrorKind::QuotaExceeded)], types: vec![] }
}

fn code_of(provider: &Vocabulary, status: u16, error_type: Option<&str>, code: Option<&str>) -> String {
    let kind = classify(provider, &protocol(), status, error_type, code);
    let error: Error = kind.into_error(ProviderError {
        provider: "demo".into(),
        status,
        message: String::new(),
        error_type: None,
        provider_code: None,
        retry_after: None,
        request_id: None,
        raw_body: String::new(),
    });
    error.code().to_string()
}

#[test]
fn a_provider_with_no_vocabulary_inherits_the_protocol() {
    let none = Vocabulary::matches_protocol();
    assert_eq!(code_of(&none, 429, None, None), "rate_limited");
    assert_eq!(code_of(&none, 200, None, Some("known_code")), "content_filter");
    assert_eq!(code_of(&none, 200, Some("known_type"), None), "provider_server_error");
}

#[test]
fn a_provider_rule_beats_the_protocol_at_the_same_tier() {
    assert_eq!(code_of(&provider_status(), 402, None, None), "quota_exceeded");
}

#[test]
fn a_provider_status_rule_does_not_outrank_a_protocol_code() {
    assert_eq!(
        code_of(&provider_status(), 402, None, Some("known_code")),
        "content_filter",
        "a status guess outranked the failure the provider named"
    );
}

#[test]
fn a_provider_status_rule_outranks_a_protocol_type() {
    assert_eq!(code_of(&provider_status(), 402, Some("known_type"), None), "quota_exceeded");
}

#[test]
fn the_residual_is_http_semantics_and_nothing_more() {
    let none = Vocabulary::matches_protocol();
    assert_eq!(code_of(&none, 400, None, None), "provider_invalid_request");
    assert_eq!(code_of(&none, 422, None, None), "provider_invalid_request");
    assert_eq!(code_of(&none, 500, None, None), "provider_server_error");
    assert_eq!(code_of(&none, 502, None, None), "provider_server_error");
    assert_eq!(code_of(&none, 418, None, None), "provider_unknown");
}

/// Within the code tier too, the provider is asked first.
#[test]
fn a_provider_code_rule_beats_the_protocols() {
    let provider = Vocabulary {
        codes: vec![("known_code".to_string(), ErrorKind::Authentication)],
        statuses: vec![],
        types: vec![],
    };
    assert_eq!(code_of(&provider, 200, None, Some("known_code")), "authentication");
    assert_eq!(code_of(&provider, 599, None, None), "provider_server_error");
    assert_eq!(code_of(&provider, 600, None, None), "provider_unknown");
}
