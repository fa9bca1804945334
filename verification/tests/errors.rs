use std::collections::BTreeSet;

use warpllm::error::{Error, Origin, ProviderError};

fn wire(err: &Error) -> serde_json::Value {
    serde_json::from_str(&err.to_wire_json()).unwrap()
}

fn provider_error() -> ProviderError {
    ProviderError {
        provider: "demo".into(),
        status: 500,
        message: "m".into(),
        error_type: None,
        provider_code: None,
        retry_after: None,
        request_id: None,
        raw_body: String::new(),
    }
}

fn rate_limit() -> Error {
    Error::RateLimited(Box::new(ProviderError {
        provider: "openai".into(),
        status: 429,
        message: "slow down".into(),
        error_type: Some("rate_limit_error".into()),
        provider_code: Some("rate_limit_exceeded".into()),
        retry_after: Some(30),
        request_id: Some("req-1".into()),
        raw_body: r#"{"error":{"message":"slow down"}}"#.into(),
    }))
}

#[test]
fn display_names_the_provider_and_status() {
    let sample = ProviderError {
        provider: "openai".into(),
        status: 429,
        message: "slow down".into(),
        error_type: None,
        provider_code: None,
        retry_after: None,
        request_id: None,
        raw_body: String::new(),
    };
    assert_eq!(sample.text(), "openai returned HTTP 429: slow down");
}

#[test]
fn a_huge_raw_body_is_bounded_and_marked() {
    let bounded = ProviderError::bounded(&"x".repeat(10_000));
    assert!(bounded.len() < 10_000);
    assert!(bounded.starts_with("xxx"));
    assert!(bounded.ends_with("[truncated]"), "{bounded}");
}

#[test]
fn bounding_a_multibyte_body_does_not_panic() {
    let bounded = ProviderError::bounded(&"é".repeat(4_000));
    assert!(bounded.ends_with("[truncated]"));
    assert_eq!(ProviderError::bounded("héllo"), "héllo");
}

/// The cut lands after exactly the 2048th character.
#[test]
fn bounding_keeps_the_first_2048_characters() {
    let bounded = ProviderError::bounded(&"é".repeat(3_000));
    assert_eq!(bounded, format!("{}…[truncated]", "é".repeat(2_048)));
    let whole = "y".repeat(2_048);
    assert_eq!(ProviderError::bounded(&whole), whole);
}

#[test]
fn provider_error_wire_format() {
    let v = wire(&rate_limit());
    assert_eq!(v["code"], "rate_limited");
    assert_eq!(v["origin"], "provider");
    assert_eq!(v["provider"], "openai");
    assert_eq!(v["status"], 429);
    assert_eq!(v["retry_after_seconds"], 30);
    assert_eq!(v["error_type"], "rate_limit_error");
    assert_eq!(v["provider_code"], "rate_limit_exceeded");
    assert_eq!(v["request_id"], "req-1");
    assert!(v["provider_raw"].as_str().unwrap().contains("slow down"));
    assert!(v["message"].as_str().unwrap().contains("HTTP 429"));
}

#[test]
fn an_unknown_provider_failure_still_serializes() {
    let v = wire(&Error::Unknown(Box::new(ProviderError {
        provider: "demo".into(),
        status: 402,
        message: "balance".into(),
        error_type: None,
        provider_code: None,
        retry_after: None,
        request_id: None,
        raw_body: "Insufficient Balance".into(),
    })));
    assert_eq!(v["code"], "provider_unknown");
    assert_eq!(v["origin"], "provider");
    assert!(v["error_type"].is_null());
    assert!(v["provider_code"].is_null());
    assert!(v["retry_after_seconds"].is_null());
    assert_eq!(v["provider_raw"], "Insufficient Balance");
}

#[test]
fn a_provider_failure_matches_without_unwrapping_a_kind() {
    assert!(matches!(rate_limit(), Error::RateLimited(_)));
}

#[test]
fn origin_and_provider_error_agree_on_every_variant() {
    let all = [
        Error::InvalidInput("x".into()),
        Error::InvalidModel { given: "x".into() },
        Error::MissingApiKey { provider: "openai".into(), env_var: None },
        Error::Decode { provider: "openai".into(), message: "x".into() },
        Error::NotImplemented("x".into()),
        Error::Internal("x".into()),
        rate_limit(),
        Error::QuotaExceeded(Box::new(provider_error())),
        Error::Overloaded(Box::new(provider_error())),
        Error::ServerError(Box::new(provider_error())),
        Error::ContextLengthExceeded(Box::new(provider_error())),
        Error::ContentFilter(Box::new(provider_error())),
        Error::Authentication(Box::new(provider_error())),
        Error::PermissionDenied(Box::new(provider_error())),
        Error::ModelNotFound(Box::new(provider_error())),
        Error::InvalidRequest(Box::new(provider_error())),
        Error::Unknown(Box::new(provider_error())),
    ];
    for error in &all {
        assert_eq!(
            error.origin() == Origin::Provider,
            error.provider_error().is_some(),
            "{error:?}"
        );
    }
}

#[test]
fn every_code_is_distinct() {
    let codes = [
        Error::InvalidInput("x".into()).code(),
        Error::MissingApiKey { provider: "openai".into(), env_var: None }.code(),
        Error::Decode { provider: "openai".into(), message: "x".into() }.code(),
        Error::NotImplemented("x".into()).code(),
        Error::Internal("x".into()).code(),
        Error::RateLimited(Box::new(provider_error())).code(),
        Error::QuotaExceeded(Box::new(provider_error())).code(),
        Error::Overloaded(Box::new(provider_error())).code(),
        Error::ServerError(Box::new(provider_error())).code(),
        Error::ContextLengthExceeded(Box::new(provider_error())).code(),
        Error::ContentFilter(Box::new(provider_error())).code(),
        Error::Authentication(Box::new(provider_error())).code(),
        Error::PermissionDenied(Box::new(provider_error())).code(),
        Error::ModelNotFound(Box::new(provider_error())).code(),
        Error::InvalidRequest(Box::new(provider_error())).code(),
        Error::Unknown(Box::new(provider_error())).code(),
    ];
    let unique: BTreeSet<_> = codes.iter().collect();
    assert_eq!(unique.len(), codes.len(), "{codes:?}");
    assert_eq!(Error::InvalidInput("x".into()).code(), "invalid_request");
    assert_eq!(
        Error::InvalidRequest(Box::new(provider_error())).code(),
        "provider_invalid_request"
    );
}

#[test]
fn quota_exhaustion_is_a_distinct_variant_from_a_rate_limit() {
    let quota = Error::QuotaExceeded(Box::new(provider_error()));
    assert!(!matches!(quota, Error::RateLimited(_)));
    assert_ne!(quota.code(), rate_limit().code());
}

#[test]
fn missing_key_wire_format() {
    let v = wire(&Error::MissingApiKey {
        provider: "openai".into(),
        env_var: Some("OPENAI_API_KEY".into()),
    });
    assert_eq!(v["code"], "missing_api_key");
    assert_eq!(v["origin"], "gateway");
    assert_eq!(v["env_var"], "OPENAI_API_KEY");
}

#[test]
fn a_network_failure_is_a_gateway_failure() {
    let error = Error::Decode { provider: "openai".into(), message: "bad json".into() };
    assert_eq!(error.origin(), Origin::Gateway);
    assert!(error.provider_error().is_none());
    assert_eq!(wire(&error)["provider"], "openai");
}

#[test]
fn a_setup_failure_blames_the_gateway_and_not_the_caller() {
    let error = Error::Internal("tls backend unavailable".into());
    assert_eq!(error.origin(), Origin::Gateway);
    assert!(error.provider_error().is_none());
    assert_ne!(error.code(), Error::InvalidInput("x".into()).code());
    assert_eq!(wire(&error)["code"], "internal_error");
}

#[test]
fn not_implemented_wire_format() {
    let v = wire(&Error::NotImplemented("streaming".into()));
    assert_eq!(v["code"], "not_implemented");
    assert!(v["message"].as_str().unwrap().contains("streaming"));
}

/// The message reads the same as the error's own text, and the members
/// come in a fixed order: `code`, `origin`, `message` first.
#[test]
fn the_wire_form_is_exact() {
    let err = Error::MissingApiKey { provider: "demo".into(), env_var: None };
    assert_eq!(
        err.to_wire_json(),
        "{\"code\":\"missing_api_key\",\"origin\":\"gateway\",\"message\":\"missing API key for demo: its registry entry names no environment variable to read one from\",\"provider\":\"demo\",\"env_var\":null}"
    );
    assert_eq!(
        Error::InvalidModel { given: "x/y".into() }.text(),
        "invalid model string 'x/y': no registered model spec"
    );
    assert_eq!(
        Error::MissingApiKey { provider: "openai".into(), env_var: Some("OPENAI_API_KEY".into()) }.text(),
        "missing API key for openai: set the OPENAI_API_KEY environment variable"
    );
    assert_eq!(Origin::Gateway.as_str(), "gateway");
    assert_eq!(Origin::Provider.as_str(), "provider");
}

/// Escapes in a provider's text are the serializer's, and still parse back.
#[test]
fn quotes_in_a_message_survive_the_wire_form() {
    let err = Error::InvalidInput("say \"hi\"\n".into());
    assert_eq!(wire(&err)["message"], "invalid input: say \"hi\"\n");
}

/// Members are written in order, separated by commas, with the keys quoted.
#[test]
fn an_object_is_written_member_by_member() {
    let members = vec![("a".to_string(), "1".to_string()), ("b\"".to_string(), "null".to_string())];
    assert_eq!(warpllm::error::json_object(&members), "{\"a\":1,\"b\\\"\":null}");
    assert_eq!(warpllm::error::json_object(&Vec::new()), "{}");
}

/// Strings in the wire form are escaped as serde_json escapes them: quote and
/// backslash behind a backslash, short escapes for the usual controls, and
/// `\u00XX` with lowercase hex for the rest; `/` and non-ASCII stay as they are.
#[test]
fn wire_strings_are_escaped_exactly() {
    let err = Error::InvalidInput("q\"b\\n\nt\tc\u{1f}/é".into());
    assert_eq!(
        err.to_wire_json(),
        "{\"code\":\"invalid_request\",\"origin\":\"gateway\",\"message\":\"invalid input: q\\\"b\\\\n\\nt\\tc\\u001f/é\"}"
    );
}
