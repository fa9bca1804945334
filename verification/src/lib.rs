//! Core engine for warpllm, an AI gateway: the provider roster and the lookup
//! over it, the error taxonomy and its classification, request balancing, the
//! lossless conversion of chat responses into the normalized form and back,
//! and the small text and wire helpers these rest on.

pub mod balanced;
pub mod balancer;
pub mod client;
pub mod credentials;
pub mod error;
pub mod gateway;
pub mod http;
pub mod json;
pub mod model;
pub mod normalized;
pub mod openai_error;
pub mod registry;
pub mod response;
pub mod text;
pub mod types;
pub mod wire;
pub mod yaml;

use vstd::prelude::*;

pub use balanced::BalancedClient;
pub use client::{Client, ClientConfig};
pub use error::{Error, Origin, ProviderError};
pub use openai_error::{ErrorBody, ErrorClass, OpenAiError};
pub use registry::{fetch_model, Capabilities, ModelSpec, ProviderSpec};
pub use types::{Api, Protocol};

verus! {

/// The warpllm version.
pub fn version() -> (v: &'static str)
    ensures
        v@ == version_text(),
{
    proof {
        reveal_strlit("0.2.0");
    }
    "0.2.0"
}

/// The version as text: three dot-separated numbers.
pub open spec fn version_text() -> Seq<char> {
    seq!['0', '.', '2', '.', '0']
}

} // verus!
