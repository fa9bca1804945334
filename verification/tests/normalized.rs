use warpllm::normalized::{role_from_wire, role_to_wire, FinishReason, RawJson, Role};
use warpllm::openai_error::ErrorClass;

#[test]
fn finish_reason_from_raw_table() {
    assert_eq!(FinishReason::from_raw("stop"), FinishReason::Stop);
    assert_eq!(FinishReason::from_raw("length"), FinishReason::Length);
    assert_eq!(FinishReason::from_raw("tool_calls"), FinishReason::ToolCalls);
    assert_eq!(FinishReason::from_raw("content_filter"), FinishReason::ContentFilter);
    assert_eq!(FinishReason::from_raw("function_call"), FinishReason::Other);
    assert_eq!(FinishReason::from_raw("junk"), FinishReason::Other);
}

#[test]
fn every_status_class_is_decided_in_rust() {
    assert_eq!(ErrorClass::from_status(None), ErrorClass::ApiConnection);
    assert_eq!(ErrorClass::from_status(Some(401)), ErrorClass::Authentication);
    assert_eq!(ErrorClass::from_status(Some(418)), ErrorClass::ApiStatus);
    assert_eq!(ErrorClass::from_status(Some(503)), ErrorClass::InternalServer);
}

/// Each status with a class of its own, and the ranges around them.
#[test]
fn every_named_status_has_its_class() {
    for (status, class) in [
        (400, ErrorClass::BadRequest),
        (403, ErrorClass::PermissionDenied),
        (404, ErrorClass::NotFound),
        (409, ErrorClass::Conflict),
        (422, ErrorClass::UnprocessableEntity),
        (429, ErrorClass::RateLimit),
        (500, ErrorClass::InternalServer),
        (599, ErrorClass::InternalServer),
        (499, ErrorClass::ApiStatus),
        (200, ErrorClass::ApiStatus),
    ] {
        assert_eq!(ErrorClass::from_status(Some(status)), class, "{status}");
    }
}

#[test]
fn raw_json_invalid_errors_on_parse_only() {
    let raw = RawJson::new(r#"{"almost": json"#.to_string());
    assert_eq!(raw.as_str(), r#"{"almost": json"#);
    assert!(raw.parse().is_none());
}

#[test]
fn raw_json_round_trips_and_parses() {
    let raw = RawJson::new(r#"{"z":1,"a":2}"#.to_string());
    assert_eq!(raw.as_str(), r#"{"z":1,"a":2}"#);
    match raw.parse() {
        Some(warpllm::json::JsonNode::Object(members)) => {
            assert_eq!(members.len(), 2);
            assert!(members.iter().any(|(k, v)| k == "z" && matches!(v, warpllm::json::JsonNode::Number(n) if n == "1")));
        },
        other => panic!("{other:?}"),
    }
}

#[test]
fn raw_json_empty_parses_to_empty_object() {
    match RawJson::new(String::new()).parse() {
        Some(warpllm::json::JsonNode::Object(members)) => assert!(members.is_empty()),
        other => panic!("{other:?}"),
    }
    match RawJson::new("  ".to_string()).parse() {
        Some(warpllm::json::JsonNode::Object(members)) => assert!(members.is_empty()),
        other => panic!("{other:?}"),
    }
}

/// Raw text is kept byte for byte, whitespace and key order included.
#[test]
fn raw_json_keeps_its_bytes() {
    let raw = RawJson::new(r#"{"z": 1,"a":2 }"#.to_string());
    assert_eq!(raw.as_str(), r#"{"z": 1,"a":2 }"#);
}

#[test]
fn roles_round_trip_their_wire_spelling() {
    for role in [Role::System, Role::User, Role::Assistant, Role::Tool] {
        assert_eq!(role_from_wire(role_to_wire(role).to_string()), (role, None));
    }
    assert_eq!(role_from_wire("developer".to_string()), (Role::User, Some("developer".to_string())));
}
