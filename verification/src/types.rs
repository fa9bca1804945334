//! The vocabulary the registry and the gateway agree on: which wire format a
//! provider speaks, and which API surfaces it serves.

use vstd::prelude::*;

use crate::text::text_eq;

verus! {

/// How a provider's wire protocol is spoken. One variant per wire format, not
/// per provider: a provider that diverges from its protocol is handled in that
/// protocol's conversions, never with a variant of its own.
#[derive(Debug, Clone, Copy, PartialEq, Eq, Structural)]
#[non_exhaustive]
pub enum Protocol {
    /// The OpenAI-compatible chat completions wire format.
    OpenAiCompat,
}

/// One API surface a provider can serve, as named in a roster provider's
/// `supported_apis`. Being an enum is what makes a misspelling fail to load
/// rather than fail against a live provider.
#[derive(Debug, Clone, Copy, PartialEq, Eq, Structural)]
#[non_exhaustive]
pub enum Api {
    /// Chat completions: one request, one whole reply.
    ChatCompletions,
    /// Chat completions asked to stream, delivered as incremental chunks.
    /// Separate from [`Api::ChatCompletions`]: declaring one never implies
    /// the other.
    ChatCompletionsStream,
    /// OpenAI's newer, stateful successor to chat completions.
    Responses,
}

/// The roster spelling of a protocol, and the key its passthrough fields are
/// filed under.
pub open spec fn protocol_name(p: Protocol) -> Seq<char> {
    match p {
        Protocol::OpenAiCompat => "openai_compat"@,
    }
}

/// The roster spelling of an API surface.
pub open spec fn api_name(a: Api) -> Seq<char> {
    match a {
        Api::ChatCompletions => "chat_completions"@,
        Api::ChatCompletionsStream => "chat_completions_stream"@,
        Api::Responses => "responses"@,
    }
}

/// The APIs a protocol defines.
pub open spec fn protocol_apis(p: Protocol) -> Seq<Api> {
    match p {
        Protocol::OpenAiCompat => seq![Api::ChatCompletions, Api::ChatCompletionsStream, Api::Responses],
    }
}

/// The protocol an API surface is spoken in.
pub open spec fn api_protocol(a: Api) -> Protocol {
    match a {
        Api::ChatCompletions | Api::ChatCompletionsStream | Api::Responses => Protocol::OpenAiCompat,
    }
}

/// The protocol a roster spelling names, if any.
pub open spec fn protocol_named(s: Seq<char>) -> Option<Protocol> {
    if s == "openai_compat"@ {
        Some(Protocol::OpenAiCompat)
    } else {
        None
    }
}

/// The API surface a roster spelling names, if any.
pub open spec fn api_named(s: Seq<char>) -> Option<Api> {
    if s == "chat_completions"@ {
        Some(Api::ChatCompletions)
    } else if s == "chat_completions_stream"@ {
        Some(Api::ChatCompletionsStream)
    } else if s == "responses"@ {
        Some(Api::Responses)
    } else {
        None
    }
}

impl Protocol {
    /// This protocol's name: the spelling the roster uses.
    pub fn as_str(self) -> (r: &'static str)
        ensures
            r@ == protocol_name(self),
    {
        match self {
            Protocol::OpenAiCompat => "openai_compat",
        }
    }

    /// The APIs this wire format defines. A roster provider naming an API its
    /// protocol does not define is a protocol mismatch.
    pub fn apis(self) -> (r: Vec<Api>)
        ensures
            r@ == protocol_apis(self),
    {
        match self {
            Protocol::OpenAiCompat => {
                let r = vec![Api::ChatCompletions, Api::ChatCompletionsStream, Api::Responses];
                assert(r@ =~= protocol_apis(self));
                r
            },
        }
    }

    /// The protocol a roster spelling names.
    pub fn from_name(s: &str) -> (r: Option<Protocol>)
        ensures
            r == protocol_named(s@),
    {
        if text_eq(s, "openai_compat") {
            Some(Protocol::OpenAiCompat)
        } else {
            None
        }
    }
}

impl Api {
    /// This surface's name: the spelling the roster uses, and the one an error
    /// names it by.
    pub fn as_str(self) -> (r: &'static str)
        ensures
            r@ == api_name(self),
    {
        match self {
            Api::ChatCompletions => "chat_completions",
            Api::ChatCompletionsStream => "chat_completions_stream",
            Api::Responses => "responses",
        }
    }

    /// The protocol this surface is spoken in.
    pub fn protocol(self) -> (r: Protocol)
        ensures
            r == api_protocol(self),
    {
        match self {
            Api::ChatCompletions | Api::ChatCompletionsStream | Api::Responses => Protocol::OpenAiCompat,
        }
    }

    /// The surface a roster spelling names.
    pub fn from_name(s: &str) -> (r: Option<Api>)
        ensures
            r == api_named(s@),
    {
        if text_eq(s, "chat_completions") {
            Some(Api::ChatCompletions)
        } else if text_eq(s, "chat_completions_stream") {
            Some(Api::ChatCompletionsStream)
        } else if text_eq(s, "responses") {
            Some(Api::Responses)
        } else {
            None
        }
    }
}

/// Every surface a protocol defines is spoken in that protocol, and every
/// surface's name reads back as that surface.
pub proof fn law_api_vocabulary(a: Api)
    ensures
        protocol_apis(api_protocol(a)).contains(a),
        api_named(api_name(a)) == Some(a),
        protocol_named(protocol_name(api_protocol(a))) == Some(api_protocol(a)),
{
    reveal_strlit("chat_completions");
    reveal_strlit("chat_completions_stream");
    reveal_strlit("responses");
    match a {
        Api::ChatCompletions => {
            assert(protocol_apis(api_protocol(a))[0] == a);
            assert(api_name(a) == "chat_completions"@);
        },
        Api::ChatCompletionsStream => {
            assert(protocol_apis(api_protocol(a))[1] == a);
            assert(api_name(a).len() != "chat_completions"@.len());
        },
        Api::Responses => {
            assert(protocol_apis(api_protocol(a))[2] == a);
            assert(api_name(a).len() != "chat_completions"@.len());
            assert(api_name(a).len() != "chat_completions_stream"@.len());
        },
    }
}

} // verus!
