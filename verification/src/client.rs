//! The client's decisions: which requests it admits, with which key, to which
//! URL. Performing the request is the caller's.
//!
//! A request is admitted only when both halves hold: the roster registers the
//! model, and this client holds a key for the provider serving it. They are
//! checked in that order: a name nothing registers is a typo, and hearing
//! "set `DEEPSEEK_API_KEY`" for `deepseek/typo` would send someone after a
//! credential they already have.

use vstd::prelude::*;

use crate::credentials::Credentials;
use crate::error::Error;
use crate::gateway::openai_compat::{error_from_body, is_body_error};
use crate::http::{chat_completions_url, is_success, is_success_status, without_trailing_slashes, ResponseParts};
use crate::response::{ingest_response, ingest_response_spec, render_response, render_response_spec};
use crate::wire::{CreateChatCompletionResponse, CreateChatCompletionResponseView};
use crate::registry::load::load_text;
use crate::registry::specs::SPECS_YAML;
use crate::registry::types::{copy_opt, opt_view};
use crate::registry::{fetch_model, ModelSpec, ProviderSpec};
use crate::text::{join2, owned};
use crate::types::Api;

verus! {

broadcast use crate::registry::types::group_registry_views;

/// The default request timeout, in seconds; the OpenAI SDK's.
pub const DEFAULT_TIMEOUT_SECS: u64 = 600;

/// A client's configuration. It holds no API key: keys come from the
/// environment, read once when the client is built.
#[derive(Debug, Clone)]
pub struct ClientConfig {
    /// Overrides every provider's base URL (proxies, tests). Absent means
    /// each provider talks to its own API.
    pub base_url: Option<String>,
    pub timeout_secs: Option<u64>,
}

impl Default for ClientConfig {
    fn default() -> (r: ClientConfig)
        ensures
            r.base_url is None,
            r.timeout_secs is None,
    {
        ClientConfig { base_url: None, timeout_secs: None }
    }
}

impl ClientConfig {
    /// The request timeout in seconds: the configured one, else the default.
    pub fn timeout(&self) -> (r: u64)
        ensures
            r == match self.timeout_secs {
                Some(t) => t,
                None => DEFAULT_TIMEOUT_SECS,
            },
    {
        match self.timeout_secs {
            Some(t) => t,
            None => DEFAULT_TIMEOUT_SECS,
        }
    }
}

/// Where and how an admitted request goes.
#[derive(Debug)]
pub struct Route {
    /// The `model_str` the caller routed with, echoed back on the response.
    pub model_str: String,
    pub provider: ProviderSpec,
    /// The entry, whose `model` is the name that ships upstream.
    pub model: ModelSpec,
    pub api_key: String,
    pub base_url: String,
    /// The endpoint the request is posted to.
    pub url: String,
}

/// The configuration and the keys this process could read when it was built.
pub struct Client {
    config: ClientConfig,
    credentials: Credentials,
}

impl Client {
    /// The key this client holds for `provider`.
    pub closed spec fn key_for(&self, provider: Seq<char>) -> Option<Seq<char>> {
        self.credentials.key_for(provider)
    }

    /// The configuration this client was built with.
    pub closed spec fn configured(&self) -> ClientConfig {
        self.config
    }

    /// The configured base URL override.
    pub open spec fn base_url_override(&self) -> Option<Seq<char>> {
        opt_view(self.configured().base_url)
    }

    /// A client over a configuration and the keys read for it. Building one
    /// never requires a key: a client that holds none reaches no provider, and
    /// each request says which variable it wanted.
    pub fn new(config: ClientConfig, credentials: Credentials) -> (r: Client)
        ensures
            r.configured() == config,
            forall|p: Seq<char>| #[trigger] r.key_for(p) == credentials.key_for(p),
    {
        Client { config, credentials }
    }

    /// The configuration this client was built with.
    pub fn config(&self) -> (r: &ClientConfig)
        ensures
            *r == self.configured(),
    {
        &self.config
    }

    /// The routed provider's key. A provider with no key read for it is
    /// [`Error::MissingApiKey`], naming the variable to set, or none when the
    /// roster names none for it.
    pub fn api_key(&self, provider: &ProviderSpec) -> (r: Result<&str, Error>)
        ensures
            match self.key_for(provider@.name) {
                Some(k) => r matches Ok(s) && s@ == k,
                None => r matches Err(Error::MissingApiKey { provider: p, env_var }) && p@
                    == provider@.name && opt_view(env_var) == provider@.env_api_key,
            },
    {
        match self.credentials.get(provider.name()) {
            Some(k) => Ok(k),
            None => Err(
                Error::MissingApiKey {
                    provider: owned(provider.name()),
                    env_var: copy_opt(&provider.env_api_key),
                },
            ),
        }
    }

    /// A configured base URL overrides the provider's own; otherwise each
    /// provider talks to its own API.
    pub fn base_url<'a>(&'a self, provider: &'a ProviderSpec) -> (r: &'a str)
        ensures
            r@ == match self.base_url_override() {
                Some(b) => b,
                None => provider@.base_url,
            },
    {
        match &self.config.base_url {
            Some(b) => b.as_str(),
            None => provider.base_url(),
        }
    }

    /// Decides whether a chat completion request for `model_str` goes out, and
    /// where: streaming is not served; the model must be registered, its
    /// provider must serve chat completions, and this client must hold the
    /// provider's key.
    pub fn route(&self, model_str: &str, stream: Option<bool>) -> (r: Result<Route, Error>)
        ensures
            stream == Some(true) ==> (r matches Err(Error::NotImplemented(s)) && s@ == "streaming"@),
            stream != Some(true) ==> match load_text(SPECS_YAML@) {
                Err(e) => r matches Err(Error::Internal(m)) && m@ == "specs.yaml: "@ + e,
                Ok(reg) => match reg.resolve(model_str@) {
                    None => r matches Err(Error::InvalidModel { given }) && given@ == model_str@,
                    Some((p, m)) => if !p.supported_apis.contains(Api::ChatCompletions) {
                        r matches Err(Error::InvalidInput(msg)) && msg@ == p.name + ": "@
                            + model_str@ + " does not serve chat_completions"@
                    } else {
                        match self.key_for(p.name) {
                            None => r matches Err(Error::MissingApiKey { provider, env_var })
                                && provider@ == p.name && opt_view(env_var) == p.env_api_key,
                            Some(k) => r matches Ok(route) && route.model_str@ == model_str@
                                && route.provider@ == p && route.model@ == m && route.api_key@ == k
                                && route.base_url@ == match self.base_url_override() {
                                Some(b) => b,
                                None => p.base_url,
                            } && route.url@ == without_trailing_slashes(route.base_url@)
                                + "/chat/completions"@,
                        }
                    },
                },
            },
    {
        if stream == Some(true) {
            return Err(Error::NotImplemented(owned("streaming")));
        }
        let (provider, model) = match fetch_model(model_str) {
            Ok(pair) => pair,
            Err(e) => {
                return Err(e);
            },
        };
        if !provider.supports_api(Api::ChatCompletions) {
            let mut msg = join2(provider.name(), ": ");
            msg.append(model_str);
            msg.append(" does not serve chat_completions");
            return Err(Error::InvalidInput(msg));
        }
        let api_key = match self.api_key(&provider) {
            Ok(k) => owned(k),
            Err(e) => {
                return Err(e);
            },
        };
        let base_url = owned(self.base_url(&provider));
        let url = chat_completions_url(base_url.as_str());
        Ok(Route { model_str: owned(model_str), provider, model, api_key, base_url, url })
    }
}

/// The response a caller gets for a decoded upstream answer: the answer
/// normalized and rendered back for the route's provider, its `model` the
/// caller's own `model_str` rather than the upstream's echo.
pub open spec fn finished(
    w: CreateChatCompletionResponseView,
    provider: Seq<char>,
    model_str: Seq<char>,
) -> CreateChatCompletionResponseView {
    let r = render_response_spec(ingest_response_spec(w), provider);
    CreateChatCompletionResponseView {
        id: r.id,
        choices: r.choices,
        created: r.created,
        model: model_str,
        object: r.object,
        moderation: r.moderation,
        service_tier: r.service_tier,
        system_fingerprint: r.system_fingerprint,
        usage: r.usage,
        unknown_fields: r.unknown_fields,
    }
}

/// Finishes a routed exchange from what came back: a non-2xx status is the
/// failure its body describes; a 2xx whose body did not decode (`decoded`
/// carries the decoder's message) is [`Error::Decode`]; otherwise the
/// decoded response is normalized, rendered back for the provider, and
/// answered with the caller's `model_str` as its model.
pub fn finish(
    route: &Route,
    parts: ResponseParts,
    decoded: Result<CreateChatCompletionResponse, String>,
) -> (r: Result<CreateChatCompletionResponse, Error>)
    ensures
        !is_success_status(parts.status) ==> (r matches Err(e) && is_body_error(
            e,
            route.provider@.name,
            parts.status,
            parts.body@,
            parts.retry_after,
            opt_view(parts.request_id),
        )),
        is_success_status(parts.status) ==> match decoded {
            Err(m) => r matches Err(Error::Decode { provider, message }) && provider@
                == route.provider@.name && message@ == m@,
            Ok(w) => r matches Ok(c) && c@ == finished(w@, route.provider@.name, route.model_str@)
                && c@.model == route.model_str@,
        },
{
    if !is_success(parts.status) {
        let ResponseParts { status, body, retry_after, request_id } = parts;
        return Err(error_from_body(route.provider.name(), status, body.as_str(), retry_after, request_id));
    }
    match decoded {
        Err(message) => Err(Error::Decode { provider: owned(route.provider.name()), message }),
        Ok(w) => {
            let normalized = ingest_response(w);
            let mut c = render_response(&normalized, route.provider.name());
            c.model = route.model_str.clone();
            Ok(c)
        },
    }
}

} // verus!
