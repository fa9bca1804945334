//! What an upstream failure MEANS, and the seam that lets one provider differ
//! from the protocol it speaks.
//!
//! A [`Vocabulary`] is three independent lookups, one per signal in an error
//! envelope: the provider's `code` (strongest), the HTTP status, and the
//! provider's `type` (a failure family, weakest). [`classify`] runs them
//! strongest tier first; within a tier the provider is asked before its
//! protocol, and a tier is never skipped, so a provider's status rule cannot
//! outrank the protocol's reading of an explicit `code`.

use vstd::prelude::*;

use crate::error::{Error, ProviderError};
use crate::text::text_eq;

verus! {

/// The classifier's answer: which provider-driven [`Error`] variant a failure
/// is.
#[derive(Debug, Clone, Copy, PartialEq, Eq, Structural)]
pub enum ErrorKind {
    RateLimited,
    QuotaExceeded,
    Overloaded,
    ServerError,
    ContextLengthExceeded,
    ContentFilter,
    Authentication,
    PermissionDenied,
    ModelNotFound,
    InvalidRequest,
    Unknown,
}

/// The error a kind of failure is, carrying the upstream's evidence.
pub open spec fn kind_error(k: ErrorKind, p: ProviderError) -> Error {
    match k {
        ErrorKind::RateLimited => Error::RateLimited(Box::new(p)),
        ErrorKind::QuotaExceeded => Error::QuotaExceeded(Box::new(p)),
        ErrorKind::Overloaded => Error::Overloaded(Box::new(p)),
        ErrorKind::ServerError => Error::ServerError(Box::new(p)),
        ErrorKind::ContextLengthExceeded => Error::ContextLengthExceeded(Box::new(p)),
        ErrorKind::ContentFilter => Error::ContentFilter(Box::new(p)),
        ErrorKind::Authentication => Error::Authentication(Box::new(p)),
        ErrorKind::PermissionDenied => Error::PermissionDenied(Box::new(p)),
        ErrorKind::ModelNotFound => Error::ModelNotFound(Box::new(p)),
        ErrorKind::InvalidRequest => Error::InvalidRequest(Box::new(p)),
        ErrorKind::Unknown => Error::Unknown(Box::new(p)),
    }
}

impl ErrorKind {
    /// The error this kind of failure is, carrying `p`.
    pub fn into_error(self, p: ProviderError) -> (r: Error)
        ensures
            r == kind_error(self, p),
    {
        let b = Box::new(p);
        match self {
            ErrorKind::RateLimited => Error::RateLimited(b),
            ErrorKind::QuotaExceeded => Error::QuotaExceeded(b),
            ErrorKind::Overloaded => Error::Overloaded(b),
            ErrorKind::ServerError => Error::ServerError(b),
            ErrorKind::ContextLengthExceeded => Error::ContextLengthExceeded(b),
            ErrorKind::ContentFilter => Error::ContentFilter(b),
            ErrorKind::Authentication => Error::Authentication(b),
            ErrorKind::PermissionDenied => Error::PermissionDenied(b),
            ErrorKind::ModelNotFound => Error::ModelNotFound(b),
            ErrorKind::InvalidRequest => Error::InvalidRequest(b),
            ErrorKind::Unknown => Error::Unknown(b),
        }
    }
}

/// What a set of error spellings means, as three independent lookups. An
/// empty table says nothing on that signal.
#[derive(Debug)]
pub struct Vocabulary {
    /// The provider's `code`: the failure naming itself.
    pub codes: Vec<(String, ErrorKind)>,
    /// Statuses that mean one thing here.
    pub statuses: Vec<(u16, ErrorKind)>,
    /// The provider's `type`: a failure family.
    pub types: Vec<(String, ErrorKind)>,
}

pub struct VocabularyView {
    pub codes: Seq<(Seq<char>, ErrorKind)>,
    pub statuses: Seq<(u16, ErrorKind)>,
    pub types: Seq<(Seq<char>, ErrorKind)>,
}

impl View for Vocabulary {
    type V = VocabularyView;

    open spec fn view(&self) -> VocabularyView {
        VocabularyView {
            codes: self.codes@.map_values(|e: (String, ErrorKind)| (e.0@, e.1)),
            statuses: self.statuses@,
            types: self.types@.map_values(|e: (String, ErrorKind)| (e.0@, e.1)),
        }
    }
}

/// The first entry of `t`, from `i`, spelled `key`.
pub open spec fn lookup(t: Seq<(Seq<char>, ErrorKind)>, key: Seq<char>, i: int) -> Option<ErrorKind>
    decreases t.len() - i,
{
    if i < 0 || i >= t.len() {
        None
    } else if t[i].0 == key {
        Some(t[i].1)
    } else {
        lookup(t, key, i + 1)
    }
}

/// The first entry of `t`, from `i`, for `status`.
pub open spec fn lookup_status(t: Seq<(u16, ErrorKind)>, status: u16, i: int) -> Option<ErrorKind>
    decreases t.len() - i,
{
    if i < 0 || i >= t.len() {
        None
    } else if t[i].0 == status {
        Some(t[i].1)
    } else {
        lookup_status(t, status, i + 1)
    }
}

impl VocabularyView {
    pub open spec fn code(self, c: Seq<char>) -> Option<ErrorKind> {
        lookup(self.codes, c, 0)
    }

    pub open spec fn status(self, s: u16) -> Option<ErrorKind> {
        lookup_status(self.statuses, s, 0)
    }

    pub open spec fn family(self, t: Seq<char>) -> Option<ErrorKind> {
        lookup(self.types, t, 0)
    }
}

/// Pure HTTP semantics, for a failure no vocabulary recognized: a 400 or 422
/// is still a client error and a 5xx still the server's; anything else stays
/// unknown rather than becoming a guess.
pub open spec fn residual(status: u16) -> ErrorKind {
    if status == 400 || status == 422 {
        ErrorKind::InvalidRequest
    } else if 500 <= status <= 599 {
        ErrorKind::ServerError
    } else {
        ErrorKind::Unknown
    }
}

/// `o`, or `alt` when it is `None`.
pub open spec fn or(o: Option<ErrorKind>, alt: Option<ErrorKind>) -> Option<ErrorKind> {
    match o {
        Some(k) => Some(k),
        None => alt,
    }
}

/// The code tier: the provider's reading of `code`, else its protocol's.
pub open spec fn code_tier(provider: VocabularyView, protocol: VocabularyView, code: Option<Seq<char>>) -> Option<ErrorKind> {
    match code {
        Some(c) => or(provider.code(c), protocol.code(c)),
        None => None,
    }
}

/// The status tier.
pub open spec fn status_tier(provider: VocabularyView, protocol: VocabularyView, status: u16) -> Option<ErrorKind> {
    or(provider.status(status), protocol.status(status))
}

/// The type tier.
pub open spec fn type_tier(provider: VocabularyView, protocol: VocabularyView, error_type: Option<Seq<char>>) -> Option<ErrorKind> {
    match error_type {
        Some(t) => or(provider.family(t), protocol.family(t)),
        None => None,
    }
}

/// What a failure is, strongest signal first.
pub open spec fn classification(
    provider: VocabularyView,
    protocol: VocabularyView,
    status: u16,
    error_type: Option<Seq<char>>,
    code: Option<Seq<char>>,
) -> ErrorKind {
    match or(
        code_tier(provider, protocol, code),
        or(status_tier(provider, protocol, status), type_tier(provider, protocol, error_type)),
    ) {
        Some(k) => k,
        None => residual(status),
    }
}

fn lookup_exec(t: &Vec<(String, ErrorKind)>, key: &str) -> (r: Option<ErrorKind>)
    ensures
        r == lookup(t@.map_values(|e: (String, ErrorKind)| (e.0@, e.1)), key@, 0),
{
    let ghost v = t@.map_values(|e: (String, ErrorKind)| (e.0@, e.1));
    let mut i: usize = 0;
    while i < t.len()
        invariant
            i <= t.len(),
            v == t@.map_values(|e: (String, ErrorKind)| (e.0@, e.1)),
            lookup(v, key@, 0) == lookup(v, key@, i as int),
        decreases t.len() - i,
    {
        if text_eq(t[i].0.as_str(), key) {
            return Some(t[i].1);
        }
        i = i + 1;
    }
    None
}

fn lookup_status_exec(t: &Vec<(u16, ErrorKind)>, status: u16) -> (r: Option<ErrorKind>)
    ensures
        r == lookup_status(t@, status, 0),
{
    let mut i: usize = 0;
    while i < t.len()
        invariant
            i <= t.len(),
            lookup_status(t@, status, 0) == lookup_status(t@, status, i as int),
        decreases t.len() - i,
    {
        if t[i].0 == status {
            return Some(t[i].1);
        }
        i = i + 1;
    }
    None
}

impl Vocabulary {
    /// A vocabulary with nothing to say on any signal: that of a provider that
    /// matches its protocol.
    pub fn matches_protocol() -> (r: Vocabulary)
        ensures
            r@.codes.len() == 0,
            r@.statuses.len() == 0,
            r@.types.len() == 0,
    {
        Vocabulary { codes: Vec::new(), statuses: Vec::new(), types: Vec::new() }
    }

    /// What this vocabulary makes of a `code`.
    pub fn from_code(&self, code: &str) -> (r: Option<ErrorKind>)
        ensures
            r == self@.code(code@),
    {
        lookup_exec(&self.codes, code)
    }

    /// What this vocabulary makes of a status.
    pub fn from_status(&self, status: u16) -> (r: Option<ErrorKind>)
        ensures
            r == self@.status(status),
    {
        lookup_status_exec(&self.statuses, status)
    }

    /// What this vocabulary makes of a `type`.
    pub fn from_type(&self, error_type: &str) -> (r: Option<ErrorKind>)
        ensures
            r == self@.family(error_type@),
    {
        lookup_exec(&self.types, error_type)
    }
}

/// Resolves one failure against a provider and the protocol it speaks,
/// strongest signal first, falling back to HTTP semantics.
pub fn classify(
    provider: &Vocabulary,
    protocol: &Vocabulary,
    status: u16,
    error_type: Option<&str>,
    code: Option<&str>,
) -> (r: ErrorKind)
    ensures
        r == classification(
            provider@,
            protocol@,
            status,
            match error_type {
                Some(t) => Some(t@),
                None => None,
            },
            match code {
                Some(c) => Some(c@),
                None => None,
            },
        ),
{
    if let Some(c) = code {
        if let Some(k) = provider.from_code(c) {
            return k;
        }
        if let Some(k) = protocol.from_code(c) {
            return k;
        }
    }
    if let Some(k) = provider.from_status(status) {
        return k;
    }
    if let Some(k) = protocol.from_status(status) {
        return k;
    }
    if let Some(t) = error_type {
        if let Some(k) = provider.from_type(t) {
            return k;
        }
        if let Some(k) = protocol.from_type(t) {
            return k;
        }
    }
    if status == 400 || status == 422 {
        ErrorKind::InvalidRequest
    } else if 500 <= status && status <= 599 {
        ErrorKind::ServerError
    } else {
        ErrorKind::Unknown
    }
}

// ------------------------------------------------------------------ laws

/// A provider with nothing to add inherits its protocol whole.
pub proof fn law_empty_vocabulary_inherits_the_protocol(
    provider: VocabularyView,
    protocol: VocabularyView,
    status: u16,
    error_type: Option<Seq<char>>,
    code: Option<Seq<char>>,
)
    requires
        provider.codes.len() == 0,
        provider.statuses.len() == 0,
        provider.types.len() == 0,
    ensures
        classification(provider, protocol, status, error_type, code) == match or(
            match code {
                Some(c) => protocol.code(c),
                None => None,
            },
            or(protocol.status(status), match error_type {
                Some(t) => protocol.family(t),
                None => None,
            }),
        ) {
            Some(k) => k,
            None => residual(status),
        },
{
}

/// A `code` either vocabulary reads decides the failure, whatever the status
/// and the family say, and whatever the provider makes of the status: the
/// upstream naming its own failure outranks a reading of its numbers.
pub proof fn law_a_read_code_decides(
    provider: VocabularyView,
    protocol: VocabularyView,
    status: u16,
    error_type: Option<Seq<char>>,
    code: Seq<char>,
)
    requires
        or(provider.code(code), protocol.code(code)) is Some,
    ensures
        classification(provider, protocol, status, error_type, Some(code)) == or(
            provider.code(code),
            protocol.code(code),
        )->Some_0,
{
}

/// Within a tier the provider is the more specific authority and wins; a
/// decisive status outranks any family.
pub proof fn law_a_read_status_outranks_the_family(
    provider: VocabularyView,
    protocol: VocabularyView,
    status: u16,
    error_type: Option<Seq<char>>,
    code: Option<Seq<char>>,
)
    requires
        code_tier(provider, protocol, code) is None,
        status_tier(provider, protocol, status) is Some,
    ensures
        classification(provider, protocol, status, error_type, code) == or(
            provider.status(status),
            protocol.status(status),
        )->Some_0,
{
}

/// Whatever was classified, the failure is the provider's, and it carries the
/// evidence it was read from, unchanged.
pub proof fn law_a_classified_failure_is_the_providers(k: ErrorKind, p: ProviderError)
    ensures
        crate::error::error_origin(&kind_error(k, p)) == crate::error::Origin::Provider,
        crate::error::evidence(&kind_error(k, p)) == Some(p),
{
}

} // verus!
