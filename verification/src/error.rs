//! Every way a warpllm call can fail, in one flat enum, and the upstream's
//! evidence that the provider-driven variants carry.

use vstd::prelude::*;

use crate::json::{json_string_literal, string_literal};
use crate::text::{chars_of, decimal, decimal_of, join2, owned, string_of};

verus! {

/// Everything the provider said, carried by every provider-driven [`Error`]
/// variant. The variant is what the failure means; this is the evidence it
/// was read from, kept whole.
#[derive(Debug, Clone)]
pub struct ProviderError {
    /// Which upstream answered.
    pub provider: String,
    /// The HTTP status it answered with, passed through unchanged.
    pub status: u16,
    /// The provider's own `message`, or the whole body when nothing parsed.
    pub message: String,
    /// The provider's `type`: a failure family, verbatim.
    pub error_type: Option<String>,
    /// The provider's `code`: the specific failure, verbatim.
    pub provider_code: Option<String>,
    /// `Retry-After` in seconds, when the provider sent the delta-seconds form.
    pub retry_after: Option<u64>,
    /// The upstream's own request identifier.
    pub request_id: Option<String>,
    /// The error body verbatim, bounded by [`ProviderError::bounded`].
    pub raw_body: String,
}

/// Every way a warpllm call can fail.
///
/// Flat: a provider failure sits beside warpllm's own, so one `match` reaches
/// every case. [`Error::origin`] says who failed, and [`Error::provider_error`]
/// hands back the upstream's evidence for the variants that have any.
#[derive(Debug)]
#[non_exhaustive]
pub enum Error {
    InvalidInput(String),
    InvalidModel { given: String },
    MissingApiKey {
        provider: String,
        /// The variable to set, when the roster names one for the provider.
        env_var: Option<String>,
    },
    /// The provider was never reached.
    Network { provider: String, message: String },
    /// The provider answered with a success status and a body warpllm could
    /// not read.
    Decode { provider: String, message: String },
    NotImplemented(String),
    /// warpllm could not set itself up; nothing the caller passed is wrong.
    Internal(String),
    /// Requests arrived faster than the account may send them.
    RateLimited(Box<ProviderError>),
    /// The account is out of credit or past a spend cap.
    QuotaExceeded(Box<ProviderError>),
    /// The provider is up but shedding load.
    Overloaded(Box<ProviderError>),
    /// An unattributed 5xx from the provider.
    ServerError(Box<ProviderError>),
    /// The prompt exceeds the model's window.
    ContextLengthExceeded(Box<ProviderError>),
    /// The provider refused on safety grounds.
    ContentFilter(Box<ProviderError>),
    /// The credential is missing or invalid.
    Authentication(Box<ProviderError>),
    /// The credential is valid but not entitled to what was asked for.
    PermissionDenied(Box<ProviderError>),
    /// The provider does not serve the model that was requested.
    ModelNotFound(Box<ProviderError>),
    /// The provider rejected the request as malformed.
    InvalidRequest(Box<ProviderError>),
    /// The provider failed and nothing in the envelope identified how.
    Unknown(Box<ProviderError>),
}

/// Who a failure came from.
#[derive(Debug, Clone, Copy, PartialEq, Eq, Structural)]
pub enum Origin {
    /// warpllm, its configuration, or the call into it.
    Gateway,
    /// The provider answered, and its answer was a failure.
    Provider,
}

pub open spec fn origin_name(o: Origin) -> Seq<char> {
    match o {
        Origin::Gateway => "gateway"@,
        Origin::Provider => "provider"@,
    }
}

impl Origin {
    /// The wire spelling.
    pub fn as_str(self) -> (r: &'static str)
        ensures
            r@ == origin_name(self),
    {
        match self {
            Origin::Gateway => "gateway",
            Origin::Provider => "provider",
        }
    }
}

/// The evidence a provider-driven error carries.
pub open spec fn evidence(e: &Error) -> Option<ProviderError> {
    match e {
        Error::RateLimited(p) | Error::QuotaExceeded(p) | Error::Overloaded(p)
        | Error::ServerError(p) | Error::ContextLengthExceeded(p) | Error::ContentFilter(p)
        | Error::Authentication(p) | Error::PermissionDenied(p) | Error::ModelNotFound(p)
        | Error::InvalidRequest(p) | Error::Unknown(p) => Some(**p),
        _ => None,
    }
}

/// Who failed.
pub open spec fn error_origin(e: &Error) -> Origin {
    match e {
        Error::InvalidInput(_) | Error::InvalidModel { .. } | Error::MissingApiKey { .. }
        | Error::Network { .. } | Error::Decode { .. } | Error::NotImplemented(_)
        | Error::Internal(_) => Origin::Gateway,
        _ => Origin::Provider,
    }
}

/// The stable machine-readable slug of a variant.
pub open spec fn error_code(e: &Error) -> Seq<char> {
    match e {
        Error::InvalidInput(_) | Error::InvalidModel { .. } => "invalid_request"@,
        Error::MissingApiKey { .. } => "missing_api_key"@,
        Error::Network { .. } => "connection_error"@,
        Error::Decode { .. } => "decode_error"@,
        Error::NotImplemented(_) => "not_implemented"@,
        Error::Internal(_) => "internal_error"@,
        Error::RateLimited(_) => "rate_limited"@,
        Error::QuotaExceeded(_) => "quota_exceeded"@,
        Error::Overloaded(_) => "overloaded"@,
        Error::ServerError(_) => "provider_server_error"@,
        Error::ContextLengthExceeded(_) => "context_length_exceeded"@,
        Error::ContentFilter(_) => "content_filter"@,
        Error::Authentication(_) => "authentication"@,
        Error::PermissionDenied(_) => "permission_denied"@,
        Error::ModelNotFound(_) => "model_not_found"@,
        Error::InvalidRequest(_) => "provider_invalid_request"@,
        Error::Unknown(_) => "provider_unknown"@,
    }
}

/// The message for a missing key: the remedy differs with whether the roster
/// names a variable, while the failure does not.
pub open spec fn missing_api_key_text(provider: Seq<char>, env_var: Option<Seq<char>>) -> Seq<char> {
    match env_var {
        Some(var) => "missing API key for "@ + provider + ": set the "@ + var
            + " environment variable"@,
        None => "missing API key for "@ + provider
            + ": its registry entry names no environment variable to read one from"@,
    }
}

/// How a [`ProviderError`] reads: `{provider} returned HTTP {status}: {message}`.
pub open spec fn provider_error_text(p: ProviderError) -> Seq<char> {
    p.provider@ + " returned HTTP "@ + decimal(p.status as nat) + ": "@ + p.message@
}

/// How an [`Error`] reads.
pub open spec fn error_text(e: &Error) -> Seq<char> {
    match e {
        Error::InvalidInput(s) => "invalid input: "@ + s@,
        Error::InvalidModel { given } => "invalid model string '"@ + given@
            + "': no registered model spec"@,
        Error::MissingApiKey { provider, env_var } => missing_api_key_text(
            provider@,
            match env_var {
                Some(v) => Some(v@),
                None => None,
            },
        ),
        Error::Network { provider, message } => "network error talking to "@ + provider@ + ": "@
            + message@,
        Error::Decode { provider, message } => "could not decode "@ + provider@ + " response: "@
            + message@,
        Error::NotImplemented(s) => "not implemented: "@ + s@,
        Error::Internal(s) => "internal error: "@ + s@,
        _ => provider_error_text(evidence(e)->Some_0),
    }
}

/// Builds the message for a missing key.
pub fn missing_api_key_message(provider: &str, env_var: Option<&str>) -> (r: String)
    ensures
        r@ == missing_api_key_text(
            provider@,
            match env_var {
                Some(v) => Some(v@),
                None => None,
            },
        ),
{
    let mut r = join2("missing API key for ", provider);
    match env_var {
        Some(var) => {
            r.append(": set the ");
            r.append(var);
            r.append(" environment variable");
        },
        None => {
            r.append(": its registry entry names no environment variable to read one from");
        },
    }
    r
}

/// The longest upstream error body kept verbatim, in characters.
pub const MAX_RAW_BODY: usize = 2048;

/// An error body as kept on a [`ProviderError`]: whole when it is at most
/// [`MAX_RAW_BODY`] characters, else its first [`MAX_RAW_BODY`] characters
/// and a marker saying it was cut.
pub open spec fn bounded_text(body: Seq<char>) -> Seq<char> {
    if body.len() <= MAX_RAW_BODY {
        body
    } else {
        body.take(MAX_RAW_BODY as int) + "…[truncated]"@
    }
}

impl ProviderError {
    /// Bounds an upstream error body. Cuts between characters, never inside
    /// one.
    pub fn bounded(body: &str) -> (r: String)
        ensures
            r@ == bounded_text(body@),
    {
        let chars = chars_of(body);
        if chars.len() <= MAX_RAW_BODY {
            return owned(body);
        }
        let mut head: Vec<char> = Vec::new();
        let mut i: usize = 0;
        while i < MAX_RAW_BODY
            invariant
                i <= MAX_RAW_BODY < chars.len(),
                head@ == chars@.take(i as int),
            decreases MAX_RAW_BODY - i,
        {
            head.push(chars[i]);
            i = i + 1;
            assert(head@ =~= chars@.take(i as int));
        }
        let mut r = string_of(head.as_slice());
        r.append("…[truncated]");
        r
    }

    /// How this failure reads: which provider, which status, what it said.
    pub fn text(&self) -> (r: String)
        ensures
            r@ == provider_error_text(*self),
    {
        let mut r = join2(self.provider.as_str(), " returned HTTP ");
        let status = decimal_of(self.status as u64);
        r.append(status.as_str());
        r.append(": ");
        r.append(self.message.as_str());
        r
    }
}

impl Error {
    /// Whether the provider said no, or the call failed before it could.
    pub fn origin(&self) -> (r: Origin)
        ensures
            r == error_origin(self),
    {
        match self {
            Error::InvalidInput(_) | Error::InvalidModel { .. } | Error::MissingApiKey { .. }
            | Error::Network { .. } | Error::Decode { .. } | Error::NotImplemented(_)
            | Error::Internal(_) => Origin::Gateway,
            _ => Origin::Provider,
        }
    }

    /// Everything the upstream said, for the variants an upstream answered with.
    pub fn provider_error(&self) -> (r: Option<&ProviderError>)
        ensures
            r is Some == evidence(self) is Some,
            r matches Some(p) ==> evidence(self) == Some(*p),
    {
        match self {
            Error::RateLimited(p) | Error::QuotaExceeded(p) | Error::Overloaded(p)
            | Error::ServerError(p) | Error::ContextLengthExceeded(p) | Error::ContentFilter(p)
            | Error::Authentication(p) | Error::PermissionDenied(p) | Error::ModelNotFound(p)
            | Error::InvalidRequest(p) | Error::Unknown(p) => Some(&**p),
            _ => None,
        }
    }

    /// The stable machine-readable slug for this variant.
    pub fn code(&self) -> (r: &'static str)
        ensures
            r@ == error_code(self),
    {
        match self {
            Error::InvalidInput(_) | Error::InvalidModel { .. } => "invalid_request",
            Error::MissingApiKey { .. } => "missing_api_key",
            Error::Network { .. } => "connection_error",
            Error::Decode { .. } => "decode_error",
            Error::NotImplemented(_) => "not_implemented",
            Error::Internal(_) => "internal_error",
            Error::RateLimited(_) => "rate_limited",
            Error::QuotaExceeded(_) => "quota_exceeded",
            Error::Overloaded(_) => "overloaded",
            Error::ServerError(_) => "provider_server_error",
            Error::ContextLengthExceeded(_) => "context_length_exceeded",
            Error::ContentFilter(_) => "content_filter",
            Error::Authentication(_) => "authentication",
            Error::PermissionDenied(_) => "permission_denied",
            Error::ModelNotFound(_) => "model_not_found",
            Error::InvalidRequest(_) => "provider_invalid_request",
            Error::Unknown(_) => "provider_unknown",
        }
    }

    /// How this failure reads.
    pub fn text(&self) -> (r: String)
        ensures
            r@ == error_text(self),
    {
        match self {
            Error::InvalidInput(s) => join2("invalid input: ", s.as_str()),
            Error::InvalidModel { given } => {
                let mut r = join2("invalid model string '", given.as_str());
                r.append("': no registered model spec");
                r
            },
            Error::MissingApiKey { provider, env_var } => {
                let var = match env_var {
                    Some(v) => Some(v.as_str()),
                    None => None,
                };
                missing_api_key_message(provider.as_str(), var)
            },
            Error::Network { provider, message } => {
                let mut r = join2("network error talking to ", provider.as_str());
                r.append(": ");
                r.append(message.as_str());
                r
            },
            Error::Decode { provider, message } => {
                let mut r = join2("could not decode ", provider.as_str());
                r.append(" response: ");
                r.append(message.as_str());
                r
            },
            Error::NotImplemented(s) => join2("not implemented: ", s.as_str()),
            Error::Internal(s) => join2("internal error: ", s.as_str()),
            Error::RateLimited(p) | Error::QuotaExceeded(p) | Error::Overloaded(p)
            | Error::ServerError(p) | Error::ContextLengthExceeded(p) | Error::ContentFilter(p)
            | Error::Authentication(p) | Error::PermissionDenied(p) | Error::ModelNotFound(p)
            | Error::InvalidRequest(p) | Error::Unknown(p) => p.text(),
        }
    }
}

/// A JSON value: a string literal, or `null` when there is none.
pub open spec fn json_opt(o: Option<Seq<char>>) -> Seq<char> {
    match o {
        Some(s) => json_string_literal(s),
        None => "null"@,
    }
}

/// One object member: the quoted key, `:`, and the value's text.
pub open spec fn member_text(m: (Seq<char>, Seq<char>)) -> Seq<char> {
    json_string_literal(m.0) + ":"@ + m.1
}

/// Object members separated by commas.
pub open spec fn members_text(ms: Seq<(Seq<char>, Seq<char>)>) -> Seq<char>
    decreases ms.len(),
{
    if ms.len() == 0 {
        Seq::empty()
    } else if ms.len() == 1 {
        member_text(ms[0])
    } else {
        members_text(ms.drop_last()) + ","@ + member_text(ms.last())
    }
}

/// A JSON object with these members, in this order.
pub open spec fn object_text(ms: Seq<(Seq<char>, Seq<char>)>) -> Seq<char> {
    "{"@ + members_text(ms) + "}"@
}

/// The members of an error's wire form, in the order they are written:
/// `code`, `origin` and `message` always, then what the variant carries.
pub open spec fn wire_members(e: &Error) -> Seq<(Seq<char>, Seq<char>)> {
    let base = seq![
        ("code"@, json_string_literal(error_code(e))),
        ("origin"@, json_string_literal(origin_name(error_origin(e)))),
        ("message"@, json_string_literal(error_text(e))),
    ];
    match e {
        Error::MissingApiKey { provider, env_var } => base + seq![
            ("provider"@, json_string_literal(provider@)),
            ("env_var"@, json_opt(match env_var {
                Some(v) => Some(v@),
                None => None,
            })),
        ],
        Error::Network { provider, .. } | Error::Decode { provider, .. } => base.push(
            ("provider"@, json_string_literal(provider@)),
        ),
        _ => match evidence(e) {
            Some(p) => base + seq![
                ("provider"@, json_string_literal(p.provider@)),
                ("status"@, decimal(p.status as nat)),
                ("retry_after_seconds"@, match p.retry_after {
                    Some(s) => decimal(s as nat),
                    None => "null"@,
                }),
                ("error_type"@, json_opt(match p.error_type {
                    Some(v) => Some(v@),
                    None => None,
                })),
                ("provider_code"@, json_opt(match p.provider_code {
                    Some(v) => Some(v@),
                    None => None,
                })),
                ("request_id"@, json_opt(match p.request_id {
                    Some(v) => Some(v@),
                    None => None,
                })),
                ("provider_raw"@, json_string_literal(p.raw_body@)),
            ],
            None => base,
        },
    }
}

fn json_opt_exec(o: &Option<String>) -> (r: String)
    ensures
        r@ == json_opt(match o {
            Some(v) => Some(v@),
            None => None,
        }),
{
    match o {
        Some(v) => string_literal(v.as_str()),
        None => owned("null"),
    }
}

/// A JSON object of `members`, each a key and its value's JSON text, in order.
pub fn json_object(ms: &Vec<(String, String)>) -> (r: String)
    ensures
        r@ == object_text(ms@.map_values(|m: (String, String)| (m.0@, m.1@))),
{
    let ghost v = ms@.map_values(|m: (String, String)| (m.0@, m.1@));
    let mut body = String::new();
    let mut i: usize = 0;
    assert(v.take(0) =~= Seq::<(Seq<char>, Seq<char>)>::empty());
    while i < ms.len()
        invariant
            i <= ms.len(),
            v == ms@.map_values(|m: (String, String)| (m.0@, m.1@)),
            body@ == members_text(v.take(i as int)),
        decreases ms.len() - i,
    {
        if i > 0 {
            body.append(",");
        }
        body.append(string_literal(ms[i].0.as_str()).as_str());
        body.append(":");
        body.append(ms[i].1.as_str());
        proof {
            assert(v.take(i as int + 1).drop_last() =~= v.take(i as int));
            assert(v.take(i as int + 1).last() == v[i as int]);
        }
        i = i + 1;
    }
    assert(v.take(i as int) =~= v);
    let mut r = owned("{");
    r.append(body.as_str());
    r.append("}");
    r
}

fn member(key: &str, value: String) -> (r: (String, String))
    ensures
        r.0@ == key@,
        r.1@ == value@,
{
    (owned(key), value)
}

impl Error {
    /// The stable machine-readable form for the FFI boundary: a JSON object
    /// with `code`, `origin` and `message`, and whatever the variant carries.
    pub fn to_wire_json(&self) -> (r: String)
        ensures
            r@ == object_text(wire_members(self)),
    {
        let mut ms: Vec<(String, String)> = Vec::new();
        ms.push(member("code", string_literal(self.code())));
        ms.push(member("origin", string_literal(self.origin().as_str())));
        ms.push(member("message", string_literal(self.text().as_str())));
        let ghost base = ms@.map_values(|m: (String, String)| (m.0@, m.1@));
        match self {
            Error::MissingApiKey { provider, env_var } => {
                ms.push(member("provider", string_literal(provider.as_str())));
                ms.push(member("env_var", json_opt_exec(env_var)));
            },
            Error::Network { provider, .. } | Error::Decode { provider, .. } => {
                ms.push(member("provider", string_literal(provider.as_str())));
            },
            _ => match self.provider_error() {
                Some(p) => {
                    ms.push(member("provider", string_literal(p.provider.as_str())));
                    ms.push(member("status", decimal_of(p.status as u64)));
                    let retry = match p.retry_after {
                        Some(s) => decimal_of(s),
                        None => owned("null"),
                    };
                    ms.push(member("retry_after_seconds", retry));
                    ms.push(member("error_type", json_opt_exec(&p.error_type)));
                    ms.push(member("provider_code", json_opt_exec(&p.provider_code)));
                    ms.push(member("request_id", json_opt_exec(&p.request_id)));
                    ms.push(member("provider_raw", string_literal(p.raw_body.as_str())));
                },
                None => {},
            },
        }
        assert(ms@.map_values(|m: (String, String)| (m.0@, m.1@)) =~= wire_members(self));
        json_object(&ms)
    }
}

/// Every error's wire form leads with `code`, `origin` and `message`, in that
/// order, whatever the variant: an unclassifiable failure still has all three.
pub proof fn law_wire_form_leads_with_code_and_origin(e: &Error)
    ensures
        wire_members(e).len() >= 3,
        wire_members(e)[0] == ("code"@, json_string_literal(error_code(e))),
        wire_members(e)[1] == ("origin"@, json_string_literal(origin_name(error_origin(e)))),
        wire_members(e)[2] == ("message"@, json_string_literal(error_text(e))),
{
}

/// `origin` and `provider_error` answer the same question two ways: the
/// evidence is present exactly when the provider is who failed.
pub proof fn law_origin_matches_evidence(e: &Error)
    ensures
        (error_origin(e) == Origin::Provider) == (evidence(e) is Some),
{
}

/// Every variant has its own slug: two errors with the same code are the same
/// kind of failure. (`invalid_request` covers warpllm's two rejections of the
/// call itself, `InvalidInput` and `InvalidModel`.)
pub proof fn law_codes_are_distinct(a: &Error, b: &Error)
    ensures
        error_code(a) == error_code(b) ==> error_kind(a) == error_kind(b),
{
    lemma_code_names_kind(a);
    lemma_code_names_kind(b);
}

/// Which kind of failure an error is, as a number: one per variant, with the
/// two rejections of the call itself counted as one.
pub open spec fn error_kind(e: &Error) -> nat {
    match e {
        Error::InvalidInput(_) | Error::InvalidModel { .. } => 0,
        Error::MissingApiKey { .. } => 1,
        Error::Network { .. } => 2,
        Error::Decode { .. } => 3,
        Error::NotImplemented(_) => 4,
        Error::Internal(_) => 5,
        Error::RateLimited(_) => 6,
        Error::QuotaExceeded(_) => 7,
        Error::Overloaded(_) => 8,
        Error::ServerError(_) => 9,
        Error::ContextLengthExceeded(_) => 10,
        Error::ContentFilter(_) => 11,
        Error::Authentication(_) => 12,
        Error::PermissionDenied(_) => 13,
        Error::ModelNotFound(_) => 14,
        Error::InvalidRequest(_) => 15,
        Error::Unknown(_) => 16,
    }
}

spec fn kind_of_code(c: Seq<char>) -> nat {
    if c == "invalid_request"@ { 0 }
    else if c == "missing_api_key"@ { 1 }
    else if c == "connection_error"@ { 2 }
    else if c == "decode_error"@ { 3 }
    else if c == "not_implemented"@ { 4 }
    else if c == "internal_error"@ { 5 }
    else if c == "rate_limited"@ { 6 }
    else if c == "quota_exceeded"@ { 7 }
    else if c == "overloaded"@ { 8 }
    else if c == "provider_server_error"@ { 9 }
    else if c == "context_length_exceeded"@ { 10 }
    else if c == "content_filter"@ { 11 }
    else if c == "authentication"@ { 12 }
    else if c == "permission_denied"@ { 13 }
    else if c == "model_not_found"@ { 14 }
    else if c == "provider_invalid_request"@ { 15 }
    else { 16 }
}

proof fn lemma_code_names_kind(e: &Error)
    ensures
        kind_of_code(error_code(e)) == error_kind(e),
{
    reveal_strlit("invalid_request");
    reveal_strlit("missing_api_key");
    reveal_strlit("connection_error");
    reveal_strlit("decode_error");
    reveal_strlit("not_implemented");
    reveal_strlit("internal_error");
    reveal_strlit("rate_limited");
    reveal_strlit("quota_exceeded");
    reveal_strlit("overloaded");
    reveal_strlit("provider_server_error");
    reveal_strlit("context_length_exceeded");
    reveal_strlit("content_filter");
    reveal_strlit("authentication");
    reveal_strlit("permission_denied");
    reveal_strlit("model_not_found");
    reveal_strlit("provider_invalid_request");
    reveal_strlit("provider_unknown");
    assert("invalid_request"@[0] == 'i' && "invalid_request"@.len() == 15);
    assert("missing_api_key"@[0] == 'm' && "missing_api_key"@.len() == 15);
    assert("connection_error"@[0] == 'c' && "connection_error"@.len() == 16);
    assert("decode_error"@[0] == 'd' && "decode_error"@.len() == 12);
    assert("not_implemented"@[0] == 'n' && "not_implemented"@.len() == 15);
    assert("internal_error"@[0] == 'i' && "internal_error"@.len() == 14);
    assert("rate_limited"@[0] == 'r' && "rate_limited"@.len() == 12);
    assert("quota_exceeded"@[0] == 'q' && "quota_exceeded"@.len() == 14);
    assert("overloaded"@[0] == 'o' && "overloaded"@.len() == 10);
    assert("provider_server_error"@[0] == 'p' && "provider_server_error"@.len() == 21);
    assert("context_length_exceeded"@[0] == 'c' && "context_length_exceeded"@.len() == 23);
    assert("content_filter"@[0] == 'c' && "content_filter"@.len() == 14);
    assert("authentication"@[0] == 'a' && "authentication"@.len() == 14);
    assert("permission_denied"@[0] == 'p' && "permission_denied"@.len() == 17);
    assert("model_not_found"@[0] == 'm' && "model_not_found"@.len() == 15);
    assert("provider_invalid_request"@[0] == 'p' && "provider_invalid_request"@.len() == 24);
    assert("provider_unknown"@[0] == 'p' && "provider_unknown"@.len() == 16);
    assert("model_not_found"@[1] == 'o' && "missing_api_key"@[1] == 'i');
}

/// The provider an error names, if it names one: the one whose key is
/// missing, the one that could not be reached or read, or the one whose
/// failure it reports.
pub open spec fn named_provider(e: &Error) -> Option<Seq<char>> {
    match e {
        Error::MissingApiKey { provider, .. } => Some(provider@),
        Error::Network { provider, .. } => Some(provider@),
        Error::Decode { provider, .. } => Some(provider@),
        Error::RateLimited(p) | Error::QuotaExceeded(p) | Error::Overloaded(p) | Error::ServerError(p)
        | Error::ContextLengthExceeded(p) | Error::ContentFilter(p) | Error::Authentication(p)
        | Error::PermissionDenied(p) | Error::ModelNotFound(p) | Error::InvalidRequest(p)
        | Error::Unknown(p) => Some(p.provider@),
        _ => None,
    }
}

/// Every error that names a provider carries it in its wire form, as the
/// member right after `code`, `origin` and `message`, spelled `provider`;
/// an error that names none has no member past those three. A provider
/// failure also carries its status, its `Retry-After` seconds, its `type`,
/// its `code`, its request id and its raw body, in that order; a missing key
/// carries the variable to set.
pub proof fn law_a_named_provider_is_on_the_wire(e: &Error)
    ensures
        named_provider(e) matches Some(n) ==> wire_members(e).len() > 3 && wire_members(e)[3] == (
            "provider"@,
            json_string_literal(n),
        ),
        named_provider(e) is None ==> wire_members(e).len() == 3,
        e matches Error::MissingApiKey { env_var, .. } ==> wire_members(e).len() == 5 && wire_members(e)[4] == (
            "env_var"@,
            json_opt(match env_var {
                Some(v) => Some(v@),
                None => None,
            }),
        ),
        (e is Network || e is Decode) ==> wire_members(e).len() == 4,
        evidence(e) matches Some(p) ==> {
            &&& wire_members(e).len() == 10
            &&& wire_members(e)[4] == ("status"@, decimal(p.status as nat))
            &&& wire_members(e)[5] == ("retry_after_seconds"@, match p.retry_after {
                Some(s) => decimal(s as nat),
                None => "null"@,
            })
            &&& wire_members(e)[6] == ("error_type"@, json_opt(match p.error_type {
                Some(v) => Some(v@),
                None => None,
            }))
            &&& wire_members(e)[7] == ("provider_code"@, json_opt(match p.provider_code {
                Some(v) => Some(v@),
                None => None,
            }))
            &&& wire_members(e)[8] == ("request_id"@, json_opt(match p.request_id {
                Some(v) => Some(v@),
                None => None,
            }))
            &&& wire_members(e)[9] == ("provider_raw"@, json_string_literal(p.raw_body@))
        },
{
}

/// Each variant's stable code, the slug a caller matches on: a rate limit
/// is `rate_limited` (backing off helps) and an exhausted account
/// `quota_exceeded` (it does not), an unreachable provider
/// `connection_error`, and so on; and every variant that names a provider's
/// failure is the provider's, the rest the gateway's.
pub proof fn law_each_variant_has_its_code(e: &Error)
    ensures
        e is InvalidInput ==> error_code(e) == "invalid_request"@,
        e is InvalidModel ==> error_code(e) == "invalid_request"@,
        e is MissingApiKey ==> error_code(e) == "missing_api_key"@,
        e is Network ==> error_code(e) == "connection_error"@,
        e is Decode ==> error_code(e) == "decode_error"@,
        e is NotImplemented ==> error_code(e) == "not_implemented"@,
        e is Internal ==> error_code(e) == "internal_error"@,
        e is RateLimited ==> error_code(e) == "rate_limited"@,
        e is QuotaExceeded ==> error_code(e) == "quota_exceeded"@,
        e is Overloaded ==> error_code(e) == "overloaded"@,
        e is ServerError ==> error_code(e) == "provider_server_error"@,
        e is ContextLengthExceeded ==> error_code(e) == "context_length_exceeded"@,
        e is ContentFilter ==> error_code(e) == "content_filter"@,
        e is Authentication ==> error_code(e) == "authentication"@,
        e is PermissionDenied ==> error_code(e) == "permission_denied"@,
        e is ModelNotFound ==> error_code(e) == "model_not_found"@,
        e is InvalidRequest ==> error_code(e) == "provider_invalid_request"@,
        e is Unknown ==> error_code(e) == "provider_unknown"@,
        (error_origin(e) == Origin::Provider) == (named_provider(e) is Some && !(e is MissingApiKey || e is Network
            || e is Decode)),
{
}

} // verus!
