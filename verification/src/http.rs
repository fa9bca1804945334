//! What an HTTP exchange with a provider leaves to decide: the endpoint a
//! request goes to, which statuses are a success, and the header evidence
//! kept from a response.

use vstd::prelude::*;

use crate::registry::types::opt_view;
use crate::text::{
    chars_of, decimal, digits_u64, is_digit, is_space, lemma_decimal_reads_back, parse_digits, string_of, trim,
    trim_chars,
};

verus! {

/// What `Retry-After` says in its delta-seconds form: optional whitespace, an
/// optional `+`, and decimal digits that fit a `u64`. The HTTP-date form,
/// and anything malformed, say nothing.
pub open spec fn retry_after_seconds(value: Seq<char>) -> Option<u64> {
    digits_u64(unsigned(trim(value)))
}

/// `t` without one leading `+`.
pub open spec fn unsigned(t: Seq<char>) -> Seq<char> {
    if t.len() > 0 && t[0] == '+' {
        t.drop_first()
    } else {
        t
    }
}

/// Parses `Retry-After`'s delta-seconds form into seconds.
///
/// RFC 9110 also permits an HTTP-date, and this deliberately does not read
/// it: a date yields `None`, and a caller then waits on its own policy rather
/// than on a misparsed instant.
pub fn parse_retry_after(value: &str) -> (r: Option<u64>)
    ensures
        r == retry_after_seconds(value@),
{
    let chars = chars_of(value);
    let t = trim_chars(chars.as_slice());
    let ghost tv = trim(value@);
    let start: usize = if t.len() > 0 && t[0] == '+' {
        1
    } else {
        0
    };
    let ghost d = t@.skip(start as int);
    assert(d =~= unsigned(tv));
    let digits = slice_from(t.as_slice(), start);
    assert(digits@ =~= d);
    parse_digits(digits.as_slice())
}

fn slice_from(t: &[char], start: usize) -> (r: Vec<char>)
    requires
        start <= t.len(),
    ensures
        r@ == t@.skip(start as int),
{
    let mut r: Vec<char> = Vec::new();
    let mut i: usize = start;
    while i < t.len()
        invariant
            start <= i <= t.len(),
            r@ == t@.subrange(start as int, i as int),
        decreases t.len() - i,
    {
        r.push(t[i]);
        i = i + 1;
        assert(r@ =~= t@.subrange(start as int, i as int));
    }
    assert(r@ =~= t@.skip(start as int));
    r
}

/// A response's status, body, and the header evidence worth keeping.
#[derive(Debug)]
pub struct ResponseParts {
    pub status: u16,
    pub body: String,
    /// `Retry-After`, when the provider sent one in delta-seconds form.
    pub retry_after: Option<u64>,
    /// The upstream's own request identifier, for correlating with a
    /// provider's logs.
    pub request_id: Option<String>,
}

/// The first present value among `values`.
pub open spec fn first_present(values: Seq<Option<String>>, i: int) -> Option<String>
    decreases values.len() - i,
{
    if i < 0 || i >= values.len() {
        None
    } else if values[i] is Some {
        values[i]
    } else {
        first_present(values, i + 1)
    }
}

/// Gathers what a response read to the end leaves: `retry_after` is the
/// `Retry-After` header's value, and `request_ids` hold the values of the
/// upstream request-id headers in the order they are tried (see
/// [`request_id_headers`]).
pub fn response_parts(
    status: u16,
    body: String,
    retry_after: Option<&str>,
    request_ids: Vec<Option<String>>,
) -> (r: ResponseParts)
    ensures
        r.status == status,
        r.body == body,
        r.retry_after == match retry_after {
            Some(v) => retry_after_seconds(v@),
            None => None,
        },
        opt_view(r.request_id) == opt_view(first_present(request_ids@, 0)),
{
    let retry = match retry_after {
        Some(v) => parse_retry_after(v),
        None => None,
    };
    let ghost all = request_ids@;
    let mut i: usize = 0;
    while i < request_ids.len()
        invariant
            request_ids@.len() == all.len(),
            i <= all.len(),
            first_present(all, 0) == first_present(all, i as int),
            request_ids@ == all,
            retry == match retry_after {
                Some(v) => retry_after_seconds(v@),
                None => None,
            },
        decreases all.len() - i,
    {
        match &request_ids[i] {
            Some(v) => {
                let id = v.clone();
                assert(all[i as int] == Some(*v));
                return ResponseParts { status, body, retry_after: retry, request_id: Some(id) };
            },
            None => {},
        }
        i = i + 1;
    }
    ResponseParts { status, body, retry_after: retry, request_id: None }
}

/// The header spellings of the upstream's own request identifier, in the
/// order they are tried: OpenAI's, then Anthropic's.
pub fn request_id_headers() -> (r: Vec<&'static str>)
    ensures
        r@.len() == 2,
        r@[0]@ == "x-request-id"@,
        r@[1]@ == "request-id"@,
{
    vec!["x-request-id", "request-id"]
}

/// Whether a status is a success.
pub open spec fn is_success_status(status: u16) -> bool {
    200 <= status < 300
}

/// Whether a status is a success: anything else comes back as data for the
/// error classifier, not as a transport failure.
pub fn is_success(status: u16) -> (r: bool)
    ensures
        r == is_success_status(status),
{
    200 <= status && status < 300
}

/// `s` without its trailing `/` characters.
pub open spec fn without_trailing_slashes(s: Seq<char>) -> Seq<char>
    decreases s.len(),
{
    if s.len() > 0 && s.last() == '/' {
        without_trailing_slashes(s.drop_last())
    } else {
        s
    }
}

/// Where a chat completion is posted: the API root with any trailing `/`
/// trimmed, then `/chat/completions`.
pub fn chat_completions_url(base_url: &str) -> (r: String)
    ensures
        r@ == without_trailing_slashes(base_url@) + "/chat/completions"@,
{
    let chars = chars_of(base_url);
    let mut n = chars.len();
    assert(chars@.take(n as int) =~= chars@);
    while n > 0 && chars[n - 1] == '/'
        invariant
            n <= chars.len(),
            without_trailing_slashes(base_url@) == without_trailing_slashes(chars@.take(n as int)),
            chars@ == base_url@,
        decreases n,
    {
        assert(chars@.take(n as int).drop_last() =~= chars@.take(n as int - 1));
        n = n - 1;
    }
    assert(chars@.take(chars.len() as int) =~= chars@);
    let mut head: Vec<char> = Vec::new();
    let mut i: usize = 0;
    while i < n
        invariant
            i <= n <= chars.len(),
            head@ == chars@.take(i as int),
        decreases n - i,
    {
        head.push(chars[i]);
        i = i + 1;
        assert(head@ =~= chars@.take(i as int));
    }
    let mut r = string_of(head.as_slice());
    r.append("/chat/completions");
    r
}

/// The delta-seconds form reads back as the number written: for every
/// `n`, `Retry-After: n` and `Retry-After: +n` both say `n` seconds.
pub proof fn law_retry_after_reads_its_seconds(n: u64)
    ensures
        retry_after_seconds(decimal(n as nat)) == Some(n),
        retry_after_seconds(seq!['+'] + decimal(n as nat)) == Some(n),
{
    let d = decimal(n as nat);
    lemma_decimal_reads_back(n);
    assert(d.len() > 0);
    assert(is_digit(d[0]) && is_digit(d.last()));
    assert(!is_space(d[0]) && !is_space(d.last()));
    assert(d.skip(0) =~= d);
    assert(d.take(d.len() as int) =~= d);
    assert(trim(d) == d);
    let p = seq!['+'] + d;
    assert(p[0] == '+' && p.last() == d.last());
    assert(!is_space(p[0]) && !is_space(p.last()));
    assert(p.skip(0) =~= p);
    assert(p.take(p.len() as int) =~= p);
    assert(trim(p) == p);
    assert(p.drop_first() =~= d);
}

/// Trimming trailing slashes removes slashes from the end and nothing else:
/// what is left is a prefix of the root, followed in the root only by `/`s,
/// and it does not itself end in `/`.
pub proof fn law_trailing_slashes_only(s: Seq<char>)
    ensures
        ({
            let w = without_trailing_slashes(s);
            &&& w.len() <= s.len()
            &&& w == s.take(w.len() as int)
            &&& forall|i: int| w.len() <= i < s.len() ==> #[trigger] s[i] == '/'
            &&& w.len() == 0 || w.last() != '/'
        }),
    decreases s.len(),
{
    if s.len() > 0 && s.last() == '/' {
        law_trailing_slashes_only(s.drop_last());
        let w = without_trailing_slashes(s);
        assert(s.drop_last().take(w.len() as int) =~= s.take(w.len() as int));
        assert forall|i: int| w.len() <= i < s.len() implies #[trigger] s[i] == '/' by {
            if i < s.len() - 1 {
                assert(s[i] == s.drop_last()[i]);
            }
        }
    } else {
        assert(s.take(s.len() as int) =~= s);
    }
}

} // verus!
