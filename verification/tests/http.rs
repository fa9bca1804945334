use warpllm::http::{chat_completions_url, is_success, parse_retry_after, request_id_headers, response_parts};

#[test]
fn retry_after_reads_delta_seconds() {
    assert_eq!(parse_retry_after("30"), Some(30));
    assert_eq!(parse_retry_after("  30 "), Some(30));
    assert_eq!(parse_retry_after("0"), Some(0));
}

#[test]
fn retry_after_declines_forms_it_cannot_read() {
    for value in ["Wed, 21 Oct 2015 07:28:00 GMT", "soon", "", "-1", "1.5"] {
        assert_eq!(parse_retry_after(value), None, "{value}");
    }
}

/// The same edges `u64`'s own parser has: a leading `+`, and the largest
/// value that fits.
#[test]
fn retry_after_follows_the_integer_grammar() {
    assert_eq!(parse_retry_after("+7"), Some(7));
    assert_eq!(parse_retry_after("+"), None);
    assert_eq!(parse_retry_after("18446744073709551615"), Some(u64::MAX));
    assert_eq!(parse_retry_after("18446744073709551616"), None);
    assert_eq!(parse_retry_after("\t12\n"), Some(12));
    assert_eq!(parse_retry_after("1 2"), None);
}

#[test]
fn the_first_request_id_spelling_present_wins() {
    assert_eq!(request_id_headers(), vec!["x-request-id", "request-id"]);
    let parts = response_parts(429, "{}".into(), Some("5"), vec![None, Some("req-2".into())]);
    assert_eq!(parts.status, 429);
    assert_eq!(parts.retry_after, Some(5));
    assert_eq!(parts.request_id.as_deref(), Some("req-2"));
    let parts = response_parts(200, String::new(), Some("soon"), vec![Some("a".into()), Some("b".into())]);
    assert_eq!(parts.retry_after, None);
    assert_eq!(parts.request_id.as_deref(), Some("a"));
}

#[test]
fn a_trailing_slash_on_the_base_url_is_trimmed() {
    assert_eq!(chat_completions_url("https://api.demo.test/v1/"), "https://api.demo.test/v1/chat/completions");
    assert_eq!(chat_completions_url("https://api.demo.test/v1"), "https://api.demo.test/v1/chat/completions");
    assert_eq!(chat_completions_url("http://x//"), "http://x/chat/completions");
}

#[test]
fn only_2xx_is_a_success() {
    assert!(is_success(200));
    assert!(is_success(299));
    assert!(!is_success(300));
    assert!(!is_success(199));
    assert!(!is_success(404));
}
