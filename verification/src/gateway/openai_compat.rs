//! Reading an OpenAI-compatible error body into the canonical failure form.
//!
//! Two jobs. Extraction pulls `type`, `code` and `message` out of
//! `{"error": {...}}`, which only this protocol can do, because the envelope
//! shape is what the protocol is. The vocabulary says which spelling means
//! which failure, as the baseline every backend on this protocol shares;
//! a provider states only where it genuinely diverges.
//!
//! The `message` is never read for classification: free text is what
//! providers reword without notice.

use vstd::prelude::*;

use crate::error::{bounded_text, evidence, Error, ProviderError};
use crate::gateway::classify::{classification, classify, ErrorKind, Vocabulary, VocabularyView};
use crate::json::{as_text, get_member, json_document, member, parse_json, JsonNode};
use crate::registry::types::opt_view;
use crate::text::{owned, text_eq};

verus! {

/// The code spellings every backend on this protocol shares.
pub open spec fn openai_codes() -> Seq<(Seq<char>, ErrorKind)> {
    seq![
        ("context_length_exceeded"@, ErrorKind::ContextLengthExceeded),
        ("content_filter"@, ErrorKind::ContentFilter),
        ("content_policy_violation"@, ErrorKind::ContentFilter),
        ("model_not_found"@, ErrorKind::ModelNotFound),
        ("rate_limit_exceeded"@, ErrorKind::RateLimited),
        ("insufficient_quota"@, ErrorKind::QuotaExceeded),
        ("billing_hard_limit_reached"@, ErrorKind::QuotaExceeded),
        ("invalid_api_key"@, ErrorKind::Authentication),
    ]
}

/// The statuses that mean one thing on this protocol. 404 is absent: it may
/// name a model, a proxy route, or the endpoint itself. 402 is absent: it is
/// not this protocol's.
pub open spec fn openai_statuses() -> Seq<(u16, ErrorKind)> {
    seq![
        (401u16, ErrorKind::Authentication),
        (403u16, ErrorKind::PermissionDenied),
        (429u16, ErrorKind::RateLimited),
        (503u16, ErrorKind::Overloaded),
    ]
}

/// The `type` families. `invalid_request_error` is a catch-all, which is why
/// a decisive status is asked before it.
pub open spec fn openai_types() -> Seq<(Seq<char>, ErrorKind)> {
    seq![
        ("rate_limit_error"@, ErrorKind::RateLimited),
        ("overloaded_error"@, ErrorKind::Overloaded),
        ("authentication_error"@, ErrorKind::Authentication),
        ("permission_error"@, ErrorKind::PermissionDenied),
        ("not_found_error"@, ErrorKind::ModelNotFound),
        ("invalid_request_error"@, ErrorKind::InvalidRequest),
        ("api_error"@, ErrorKind::ServerError),
    ]
}

/// The protocol's vocabulary.
pub open spec fn openai_vocabulary() -> VocabularyView {
    VocabularyView { codes: openai_codes(), statuses: openai_statuses(), types: openai_types() }
}

/// What a provider says differently from the protocol: DeepSeek documents 402
/// as an exhausted balance; every other provider adds nothing.
pub open spec fn provider_vocabulary(provider: Seq<char>) -> VocabularyView {
    if provider == "deepseek"@ {
        VocabularyView {
            codes: Seq::empty(),
            statuses: seq![(402u16, ErrorKind::QuotaExceeded)],
            types: Seq::empty(),
        }
    } else {
        VocabularyView { codes: Seq::empty(), statuses: Seq::empty(), types: Seq::empty() }
    }
}

fn entry(s: &str, k: ErrorKind) -> (r: (String, ErrorKind))
    ensures
        r.0@ == s@,
        r.1 == k,
{
    (owned(s), k)
}

/// The protocol's vocabulary, as tables.
pub fn openai_compat() -> (r: Vocabulary)
    ensures
        r@ == openai_vocabulary(),
{
    let codes = vec![
        entry("context_length_exceeded", ErrorKind::ContextLengthExceeded),
        entry("content_filter", ErrorKind::ContentFilter),
        entry("content_policy_violation", ErrorKind::ContentFilter),
        entry("model_not_found", ErrorKind::ModelNotFound),
        entry("rate_limit_exceeded", ErrorKind::RateLimited),
        entry("insufficient_quota", ErrorKind::QuotaExceeded),
        entry("billing_hard_limit_reached", ErrorKind::QuotaExceeded),
        entry("invalid_api_key", ErrorKind::Authentication),
    ];
    let statuses = vec![
        (401u16, ErrorKind::Authentication),
        (403u16, ErrorKind::PermissionDenied),
        (429u16, ErrorKind::RateLimited),
        (503u16, ErrorKind::Overloaded),
    ];
    let types = vec![
        entry("rate_limit_error", ErrorKind::RateLimited),
        entry("overloaded_error", ErrorKind::Overloaded),
        entry("authentication_error", ErrorKind::Authentication),
        entry("permission_error", ErrorKind::PermissionDenied),
        entry("not_found_error", ErrorKind::ModelNotFound),
        entry("invalid_request_error", ErrorKind::InvalidRequest),
        entry("api_error", ErrorKind::ServerError),
    ];
    let r = Vocabulary { codes, statuses, types };
    assert(r@.codes =~= openai_codes());
    assert(r@.statuses =~= openai_statuses());
    assert(r@.types =~= openai_types());
    r
}

/// The vocabulary `provider` adds to the protocol's.
pub fn provider_overrides(provider: &str) -> (r: Vocabulary)
    ensures
        r@ == provider_vocabulary(provider@),
{
    let mut statuses: Vec<(u16, ErrorKind)> = Vec::new();
    if text_eq(provider, "deepseek") {
        statuses.push((402u16, ErrorKind::QuotaExceeded));
    }
    let r = Vocabulary { codes: Vec::new(), statuses, types: Vec::new() };
    assert(r@.codes =~= Seq::<(Seq<char>, ErrorKind)>::empty());
    assert(r@.types =~= Seq::<(Seq<char>, ErrorKind)>::empty());
    proof {
        if provider@ == "deepseek"@ {
            assert(r@.statuses =~= seq![(402u16, ErrorKind::QuotaExceeded)]);
        } else {
            assert(r@.statuses =~= Seq::<(u16, ErrorKind)>::empty());
        }
    }
    r
}

/// The string at `error.{name}` of a parsed body, if the body parsed and holds
/// one there.
pub open spec fn envelope_field(parsed: Option<JsonNode>, name: Seq<char>) -> Option<Seq<char>> {
    match parsed {
        None => None,
        Some(v) => match member(v, "error"@) {
            None => None,
            Some(e) => as_text(member(e, name)),
        },
    }
}

fn envelope_field_exec(parsed: &Option<JsonNode>, name: &str) -> (r: Option<String>)
    ensures
        opt_view(r) == envelope_field(*parsed, name@),
{
    match parsed {
        None => None,
        Some(v) => match get_member(v, "error") {
            None => None,
            Some(e) => match get_member(e, name) {
                Some(JsonNode::Str(s)) => Some(s.clone()),
                _ => None,
            },
        },
    }
}

/// What a failure is, read from a parsed body and the provider's vocabulary
/// over the protocol's.
pub open spec fn envelope_kind(provider: Seq<char>, status: u16, parsed: Option<JsonNode>) -> ErrorKind {
    classification(
        provider_vocabulary(provider),
        openai_vocabulary(),
        status,
        envelope_field(parsed, "type"@),
        envelope_field(parsed, "code"@),
    )
}

/// The evidence a failure carries, from what the transport read: the
/// provider's `message` (or the whole body when there is none), its `type`
/// and `code` verbatim, the header evidence, and the bounded body.
pub open spec fn envelope_evidence(
    p: ProviderError,
    provider: Seq<char>,
    status: u16,
    body: Seq<char>,
    parsed: Option<JsonNode>,
    retry_after: Option<u64>,
    request_id: Option<Seq<char>>,
) -> bool {
    &&& p.provider@ == provider
    &&& p.status == status
    &&& p.message@ == match envelope_field(parsed, "message"@) {
        Some(m) => m,
        None => body,
    }
    &&& opt_view(p.error_type) == envelope_field(parsed, "type"@)
    &&& opt_view(p.provider_code) == envelope_field(parsed, "code"@)
    &&& p.retry_after == retry_after
    &&& opt_view(p.request_id) == request_id
    &&& p.raw_body@ == bounded_text(body)
}

/// Builds the failure for a non-2xx answer, given the body and what JSON
/// parsing made of it.
pub fn error_from_parsed(
    provider: &str,
    status: u16,
    body: &str,
    parsed: Option<JsonNode>,
    retry_after: Option<u64>,
    request_id: Option<String>,
) -> (r: Error)
    ensures
        evidence(&r) is Some,
        envelope_evidence(
            evidence(&r)->Some_0,
            provider@,
            status,
            body@,
            parsed,
            retry_after,
            opt_view(request_id),
        ),
        r == crate::gateway::classify::kind_error(
            envelope_kind(provider@, status, parsed),
            evidence(&r)->Some_0,
        ),
{
    let error_type = envelope_field_exec(&parsed, "type");
    let code = envelope_field_exec(&parsed, "code");
    let message = match envelope_field_exec(&parsed, "message") {
        Some(m) => m,
        None => owned(body),
    };
    let overrides = provider_overrides(provider);
    let protocol = openai_compat();
    let t = match &error_type {
        Some(t) => Some(t.as_str()),
        None => None,
    };
    let c = match &code {
        Some(c) => Some(c.as_str()),
        None => None,
    };
    let kind = classify(&overrides, &protocol, status, t, c);
    let evidence = ProviderError {
        provider: owned(provider),
        status,
        message,
        error_type,
        provider_code: code,
        retry_after,
        request_id,
        raw_body: ProviderError::bounded(body),
    };
    kind.into_error(evidence)
}

/// What the failure built for a non-2xx answer is: the provider evidence the
/// envelope (or the raw text) gives, classified by the envelope's kind.
pub open spec fn is_body_error(
    r: Error,
    provider: Seq<char>,
    status: u16,
    body: Seq<char>,
    retry_after: Option<u64>,
    request_id: Option<Seq<char>>,
) -> bool {
    &&& evidence(&r) is Some
    &&& envelope_evidence(
        evidence(&r)->Some_0,
        provider,
        status,
        body,
        json_document(body),
        retry_after,
        request_id,
    )
    &&& r == crate::gateway::classify::kind_error(
        envelope_kind(provider, status, json_document(body)),
        evidence(&r)->Some_0,
    )
}

/// Builds the failure for a non-2xx answer: `{"error": {"message", "type",
/// "code"}}` when the body is such an envelope, the raw text otherwise.
/// `retry_after` and `request_id` come from the response headers, the only
/// place they exist.
pub fn error_from_body(
    provider: &str,
    status: u16,
    body: &str,
    retry_after: Option<u64>,
    request_id: Option<String>,
) -> (r: Error)
    ensures
        is_body_error(r, provider@, status, body@, retry_after, opt_view(request_id)),
{
    let parsed = parse_json(body);
    error_from_parsed(provider, status, body, parsed, retry_after, request_id)
}

/// The free text of an envelope never decides what a failure is: two bodies
/// whose `type` and `code` agree classify alike under the same status.
pub proof fn law_the_message_never_classifies(
    provider: Seq<char>,
    status: u16,
    a: Option<JsonNode>,
    b: Option<JsonNode>,
)
    requires
        envelope_field(a, "type"@) == envelope_field(b, "type"@),
        envelope_field(a, "code"@) == envelope_field(b, "code"@),
    ensures
        envelope_kind(provider, status, a) == envelope_kind(provider, status, b),
{
}

proof fn lemma_first_hit(t: Seq<(Seq<char>, ErrorKind)>, key: Seq<char>, i: int, j: int)
    requires
        0 <= j <= i < t.len(),
        t[i].0 == key,
        forall|m: int| j <= m < i ==> (#[trigger] t[m]).0 != key,
    ensures
        crate::gateway::classify::lookup(t, key, j) == Some(t[i].1),
    decreases i - j,
{
    if j < i {
        lemma_first_hit(t, key, i, j + 1);
    }
}

/// What the protocol's vocabulary reads, for every provider: each `code` it
/// knows decides the failure whatever the status and type say; with no code,
/// each decisive status decides it (DeepSeek's 402 included); with neither,
/// each `type` family it knows does; and with nothing read, a 400 or 422 is a
/// bad request, a 5xx the server's, and anything else unknown. A
/// `rate_limit_exceeded` is a rate limit, never an exhausted quota, however
/// much a 429 beside it looks like either.
pub proof fn law_the_protocol_vocabulary(
    provider: Seq<char>,
    status: u16,
    error_type: Option<Seq<char>>,
    code: Option<Seq<char>>,
)
    ensures
        ({
        let k = crate::gateway::classify::classification(
            provider_vocabulary(provider),
            openai_vocabulary(),
            status,
            error_type,
            code,
        );
        &&& code == Some("context_length_exceeded"@) ==> k == ErrorKind::ContextLengthExceeded
        &&& code == Some("content_filter"@) ==> k == ErrorKind::ContentFilter
        &&& code == Some("content_policy_violation"@) ==> k == ErrorKind::ContentFilter
        &&& code == Some("model_not_found"@) ==> k == ErrorKind::ModelNotFound
        &&& code == Some("rate_limit_exceeded"@) ==> k == ErrorKind::RateLimited
        &&& code == Some("insufficient_quota"@) ==> k == ErrorKind::QuotaExceeded
        &&& code == Some("billing_hard_limit_reached"@) ==> k == ErrorKind::QuotaExceeded
        &&& code == Some("invalid_api_key"@) ==> k == ErrorKind::Authentication
        &&& code is None && status == 401 ==> k == ErrorKind::Authentication
        &&& code is None && status == 403 ==> k == ErrorKind::PermissionDenied
        &&& code is None && status == 429 ==> k == ErrorKind::RateLimited
        &&& code is None && status == 503 ==> k == ErrorKind::Overloaded
        &&& code is None && status == 402 && provider == "deepseek"@ ==> k == ErrorKind::QuotaExceeded
        &&& (code is None && status != 401 && status != 403 && status != 429 && status != 503 && !(status == 402 && provider == "deepseek"@)) && error_type == Some("rate_limit_error"@) ==> k == ErrorKind::RateLimited
        &&& (code is None && status != 401 && status != 403 && status != 429 && status != 503 && !(status == 402 && provider == "deepseek"@)) && error_type == Some("overloaded_error"@) ==> k == ErrorKind::Overloaded
        &&& (code is None && status != 401 && status != 403 && status != 429 && status != 503 && !(status == 402 && provider == "deepseek"@)) && error_type == Some("authentication_error"@) ==> k == ErrorKind::Authentication
        &&& (code is None && status != 401 && status != 403 && status != 429 && status != 503 && !(status == 402 && provider == "deepseek"@)) && error_type == Some("permission_error"@) ==> k == ErrorKind::PermissionDenied
        &&& (code is None && status != 401 && status != 403 && status != 429 && status != 503 && !(status == 402 && provider == "deepseek"@)) && error_type == Some("not_found_error"@) ==> k == ErrorKind::ModelNotFound
        &&& (code is None && status != 401 && status != 403 && status != 429 && status != 503 && !(status == 402 && provider == "deepseek"@)) && error_type == Some("invalid_request_error"@) ==> k == ErrorKind::InvalidRequest
        &&& (code is None && status != 401 && status != 403 && status != 429 && status != 503 && !(status == 402 && provider == "deepseek"@)) && error_type == Some("api_error"@) ==> k == ErrorKind::ServerError
        &&& (code is None && status != 401 && status != 403 && status != 429 && status != 503 && !(status == 402 && provider == "deepseek"@)) && error_type is None && (status == 400 || status == 422) ==> k == ErrorKind::InvalidRequest
        &&& (code is None && status != 401 && status != 403 && status != 429 && status != 503 && !(status == 402 && provider == "deepseek"@)) && error_type is None && 500 <= status <= 599 ==> k == ErrorKind::ServerError
        &&& (code is None && status != 401 && status != 403 && status != 429 && status != 503 && !(status == 402 && provider == "deepseek"@)) && error_type is None && !(status == 400 || status == 422 || 500 <= status <= 599) ==> k == ErrorKind::Unknown
        }),
{
    reveal_strlit("context_length_exceeded");
    reveal_strlit("content_filter");
    reveal_strlit("content_policy_violation");
    reveal_strlit("model_not_found");
    reveal_strlit("rate_limit_exceeded");
    reveal_strlit("insufficient_quota");
    reveal_strlit("billing_hard_limit_reached");
    reveal_strlit("invalid_api_key");
    reveal_strlit("rate_limit_error");
    reveal_strlit("overloaded_error");
    reveal_strlit("authentication_error");
    reveal_strlit("permission_error");
    reveal_strlit("not_found_error");
    reveal_strlit("invalid_request_error");
    reveal_strlit("api_error");
    reveal_strlit("deepseek");
    reveal_with_fuel(crate::gateway::classify::lookup_status, 6);
    reveal_with_fuel(crate::gateway::classify::lookup, 2);
    if code == Some("context_length_exceeded"@) {
        assert forall|m: int| 0 <= m < 0 implies (#[trigger] openai_codes()[m]).0 != "context_length_exceeded"@ by {}
        lemma_first_hit(openai_codes(), "context_length_exceeded"@, 0, 0);
    }
    if code == Some("content_filter"@) {
        assert forall|m: int| 0 <= m < 1 implies (#[trigger] openai_codes()[m]).0 != "content_filter"@ by {
            if m == 0 { assert(openai_codes()[0].0.len() != "content_filter"@.len() || openai_codes()[0].0[0] != "content_filter"@[0]); }
        }
        lemma_first_hit(openai_codes(), "content_filter"@, 1, 0);
    }
    if code == Some("content_policy_violation"@) {
        assert forall|m: int| 0 <= m < 2 implies (#[trigger] openai_codes()[m]).0 != "content_policy_violation"@ by {
            if m == 0 { assert(openai_codes()[0].0.len() != "content_policy_violation"@.len() || openai_codes()[0].0[0] != "content_policy_violation"@[0]); } else if m == 1 { assert(openai_codes()[1].0.len() != "content_policy_violation"@.len() || openai_codes()[1].0[0] != "content_policy_violation"@[0]); }
        }
        lemma_first_hit(openai_codes(), "content_policy_violation"@, 2, 0);
    }
    if code == Some("model_not_found"@) {
        assert forall|m: int| 0 <= m < 3 implies (#[trigger] openai_codes()[m]).0 != "model_not_found"@ by {
            if m == 0 { assert(openai_codes()[0].0.len() != "model_not_found"@.len() || openai_codes()[0].0[0] != "model_not_found"@[0]); } else if m == 1 { assert(openai_codes()[1].0.len() != "model_not_found"@.len() || openai_codes()[1].0[0] != "model_not_found"@[0]); } else if m == 2 { assert(openai_codes()[2].0.len() != "model_not_found"@.len() || openai_codes()[2].0[0] != "model_not_found"@[0]); }
        }
        lemma_first_hit(openai_codes(), "model_not_found"@, 3, 0);
    }
    if code == Some("rate_limit_exceeded"@) {
        assert forall|m: int| 0 <= m < 4 implies (#[trigger] openai_codes()[m]).0 != "rate_limit_exceeded"@ by {
            if m == 0 { assert(openai_codes()[0].0.len() != "rate_limit_exceeded"@.len() || openai_codes()[0].0[0] != "rate_limit_exceeded"@[0]); } else if m == 1 { assert(openai_codes()[1].0.len() != "rate_limit_exceeded"@.len() || openai_codes()[1].0[0] != "rate_limit_exceeded"@[0]); } else if m == 2 { assert(openai_codes()[2].0.len() != "rate_limit_exceeded"@.len() || openai_codes()[2].0[0] != "rate_limit_exceeded"@[0]); } else if m == 3 { assert(openai_codes()[3].0.len() != "rate_limit_exceeded"@.len() || openai_codes()[3].0[0] != "rate_limit_exceeded"@[0]); }
        }
        lemma_first_hit(openai_codes(), "rate_limit_exceeded"@, 4, 0);
    }
    if code == Some("insufficient_quota"@) {
        assert forall|m: int| 0 <= m < 5 implies (#[trigger] openai_codes()[m]).0 != "insufficient_quota"@ by {
            if m == 0 { assert(openai_codes()[0].0.len() != "insufficient_quota"@.len() || openai_codes()[0].0[0] != "insufficient_quota"@[0]); } else if m == 1 { assert(openai_codes()[1].0.len() != "insufficient_quota"@.len() || openai_codes()[1].0[0] != "insufficient_quota"@[0]); } else if m == 2 { assert(openai_codes()[2].0.len() != "insufficient_quota"@.len() || openai_codes()[2].0[0] != "insufficient_quota"@[0]); } else if m == 3 { assert(openai_codes()[3].0.len() != "insufficient_quota"@.len() || openai_codes()[3].0[0] != "insufficient_quota"@[0]); } else if m == 4 { assert(openai_codes()[4].0.len() != "insufficient_quota"@.len() || openai_codes()[4].0[0] != "insufficient_quota"@[0]); }
        }
        lemma_first_hit(openai_codes(), "insufficient_quota"@, 5, 0);
    }
    if code == Some("billing_hard_limit_reached"@) {
        assert forall|m: int| 0 <= m < 6 implies (#[trigger] openai_codes()[m]).0 != "billing_hard_limit_reached"@ by {
            if m == 0 { assert(openai_codes()[0].0.len() != "billing_hard_limit_reached"@.len() || openai_codes()[0].0[0] != "billing_hard_limit_reached"@[0]); } else if m == 1 { assert(openai_codes()[1].0.len() != "billing_hard_limit_reached"@.len() || openai_codes()[1].0[0] != "billing_hard_limit_reached"@[0]); } else if m == 2 { assert(openai_codes()[2].0.len() != "billing_hard_limit_reached"@.len() || openai_codes()[2].0[0] != "billing_hard_limit_reached"@[0]); } else if m == 3 { assert(openai_codes()[3].0.len() != "billing_hard_limit_reached"@.len() || openai_codes()[3].0[0] != "billing_hard_limit_reached"@[0]); } else if m == 4 { assert(openai_codes()[4].0.len() != "billing_hard_limit_reached"@.len() || openai_codes()[4].0[0] != "billing_hard_limit_reached"@[0]); } else if m == 5 { assert(openai_codes()[5].0.len() != "billing_hard_limit_reached"@.len() || openai_codes()[5].0[0] != "billing_hard_limit_reached"@[0]); }
        }
        lemma_first_hit(openai_codes(), "billing_hard_limit_reached"@, 6, 0);
    }
    if code == Some("invalid_api_key"@) {
        assert forall|m: int| 0 <= m < 7 implies (#[trigger] openai_codes()[m]).0 != "invalid_api_key"@ by {
            if m == 0 { assert(openai_codes()[0].0.len() != "invalid_api_key"@.len() || openai_codes()[0].0[0] != "invalid_api_key"@[0]); } else if m == 1 { assert(openai_codes()[1].0.len() != "invalid_api_key"@.len() || openai_codes()[1].0[0] != "invalid_api_key"@[0]); } else if m == 2 { assert(openai_codes()[2].0.len() != "invalid_api_key"@.len() || openai_codes()[2].0[0] != "invalid_api_key"@[0]); } else if m == 3 { assert(openai_codes()[3].0.len() != "invalid_api_key"@.len() || openai_codes()[3].0[0] != "invalid_api_key"@[0]); } else if m == 4 { assert(openai_codes()[4].0.len() != "invalid_api_key"@.len() || openai_codes()[4].0[0] != "invalid_api_key"@[0]); } else if m == 5 { assert(openai_codes()[5].0.len() != "invalid_api_key"@.len() || openai_codes()[5].0[0] != "invalid_api_key"@[0]); } else if m == 6 { assert(openai_codes()[6].0.len() != "invalid_api_key"@.len() || openai_codes()[6].0[0] != "invalid_api_key"@[0]); }
        }
        lemma_first_hit(openai_codes(), "invalid_api_key"@, 7, 0);
    }
    if error_type == Some("rate_limit_error"@) {
        assert forall|m: int| 0 <= m < 0 implies (#[trigger] openai_types()[m]).0 != "rate_limit_error"@ by {}
        lemma_first_hit(openai_types(), "rate_limit_error"@, 0, 0);
    }
    if error_type == Some("overloaded_error"@) {
        assert forall|m: int| 0 <= m < 1 implies (#[trigger] openai_types()[m]).0 != "overloaded_error"@ by {
            if m == 0 { assert(openai_types()[0].0.len() != "overloaded_error"@.len() || openai_types()[0].0[0] != "overloaded_error"@[0]); }
        }
        lemma_first_hit(openai_types(), "overloaded_error"@, 1, 0);
    }
    if error_type == Some("authentication_error"@) {
        assert forall|m: int| 0 <= m < 2 implies (#[trigger] openai_types()[m]).0 != "authentication_error"@ by {
            if m == 0 { assert(openai_types()[0].0.len() != "authentication_error"@.len() || openai_types()[0].0[0] != "authentication_error"@[0]); } else if m == 1 { assert(openai_types()[1].0.len() != "authentication_error"@.len() || openai_types()[1].0[0] != "authentication_error"@[0]); }
        }
        lemma_first_hit(openai_types(), "authentication_error"@, 2, 0);
    }
    if error_type == Some("permission_error"@) {
        assert forall|m: int| 0 <= m < 3 implies (#[trigger] openai_types()[m]).0 != "permission_error"@ by {
            if m == 0 { assert(openai_types()[0].0.len() != "permission_error"@.len() || openai_types()[0].0[0] != "permission_error"@[0]); } else if m == 1 { assert(openai_types()[1].0.len() != "permission_error"@.len() || openai_types()[1].0[0] != "permission_error"@[0]); } else if m == 2 { assert(openai_types()[2].0.len() != "permission_error"@.len() || openai_types()[2].0[0] != "permission_error"@[0]); }
        }
        lemma_first_hit(openai_types(), "permission_error"@, 3, 0);
    }
    if error_type == Some("not_found_error"@) {
        assert forall|m: int| 0 <= m < 4 implies (#[trigger] openai_types()[m]).0 != "not_found_error"@ by {
            if m == 0 { assert(openai_types()[0].0.len() != "not_found_error"@.len() || openai_types()[0].0[0] != "not_found_error"@[0]); } else if m == 1 { assert(openai_types()[1].0.len() != "not_found_error"@.len() || openai_types()[1].0[0] != "not_found_error"@[0]); } else if m == 2 { assert(openai_types()[2].0.len() != "not_found_error"@.len() || openai_types()[2].0[0] != "not_found_error"@[0]); } else if m == 3 { assert(openai_types()[3].0.len() != "not_found_error"@.len() || openai_types()[3].0[0] != "not_found_error"@[0]); }
        }
        lemma_first_hit(openai_types(), "not_found_error"@, 4, 0);
    }
    if error_type == Some("invalid_request_error"@) {
        assert forall|m: int| 0 <= m < 5 implies (#[trigger] openai_types()[m]).0 != "invalid_request_error"@ by {
            if m == 0 { assert(openai_types()[0].0.len() != "invalid_request_error"@.len() || openai_types()[0].0[0] != "invalid_request_error"@[0]); } else if m == 1 { assert(openai_types()[1].0.len() != "invalid_request_error"@.len() || openai_types()[1].0[0] != "invalid_request_error"@[0]); } else if m == 2 { assert(openai_types()[2].0.len() != "invalid_request_error"@.len() || openai_types()[2].0[0] != "invalid_request_error"@[0]); } else if m == 3 { assert(openai_types()[3].0.len() != "invalid_request_error"@.len() || openai_types()[3].0[0] != "invalid_request_error"@[0]); } else if m == 4 { assert(openai_types()[4].0.len() != "invalid_request_error"@.len() || openai_types()[4].0[0] != "invalid_request_error"@[0]); }
        }
        lemma_first_hit(openai_types(), "invalid_request_error"@, 5, 0);
    }
    if error_type == Some("api_error"@) {
        assert forall|m: int| 0 <= m < 6 implies (#[trigger] openai_types()[m]).0 != "api_error"@ by {
            if m == 0 { assert(openai_types()[0].0.len() != "api_error"@.len() || openai_types()[0].0[0] != "api_error"@[0]); } else if m == 1 { assert(openai_types()[1].0.len() != "api_error"@.len() || openai_types()[1].0[0] != "api_error"@[0]); } else if m == 2 { assert(openai_types()[2].0.len() != "api_error"@.len() || openai_types()[2].0[0] != "api_error"@[0]); } else if m == 3 { assert(openai_types()[3].0.len() != "api_error"@.len() || openai_types()[3].0[0] != "api_error"@[0]); } else if m == 4 { assert(openai_types()[4].0.len() != "api_error"@.len() || openai_types()[4].0[0] != "api_error"@[0]); } else if m == 5 { assert(openai_types()[5].0.len() != "api_error"@.len() || openai_types()[5].0[0] != "api_error"@[0]); }
        }
        lemma_first_hit(openai_types(), "api_error"@, 6, 0);
    }
}

/// The failure `error_from_body` builds is the kind the envelope's `code`
/// names: for every provider, status, type and message, a
/// `rate_limit_exceeded` code is [`Error::RateLimited`], an
/// `insufficient_quota` or `billing_hard_limit_reached` code is
/// [`Error::QuotaExceeded`], and so on through the protocol's codes.
pub proof fn law_a_code_names_the_failure(
    r: Error,
    provider: Seq<char>,
    status: u16,
    body: Seq<char>,
    retry_after: Option<u64>,
    request_id: Option<Seq<char>>,
)
    requires
        is_body_error(r, provider, status, body, retry_after, request_id),
    ensures
        ({
        let code = envelope_field(json_document(body), "code"@);
        &&& code == Some("rate_limit_exceeded"@) ==> r is RateLimited
        &&& code == Some("insufficient_quota"@) ==> r is QuotaExceeded
        &&& code == Some("billing_hard_limit_reached"@) ==> r is QuotaExceeded
        &&& code == Some("context_length_exceeded"@) ==> r is ContextLengthExceeded
        &&& code == Some("content_filter"@) ==> r is ContentFilter
        &&& code == Some("content_policy_violation"@) ==> r is ContentFilter
        &&& code == Some("model_not_found"@) ==> r is ModelNotFound
        &&& code == Some("invalid_api_key"@) ==> r is Authentication
        }),
{
    let parsed = json_document(body);
    law_the_protocol_vocabulary(provider, status, envelope_field(parsed, "type"@), envelope_field(parsed, "code"@));
}

} // verus!
