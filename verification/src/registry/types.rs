//! What the registry holds, and how a caller reads it.
//!
//! Two levels, two types: a [`ProviderSpec`] is how an API is reached and what
//! it serves; a [`ModelSpec`] is one routable name under that provider,
//! carrying only what differs between models of the same one.

use vstd::prelude::*;

use crate::types::{Api, Protocol};

verus! {


/// A model's published limits. `None` means undocumented, never unlimited.
#[derive(Debug, Clone, Copy, PartialEq, Eq, Structural)]
pub struct Capabilities {
    pub(crate) max_input_tokens: Option<u32>,
    pub(crate) max_output_tokens: Option<u32>,
    pub(crate) max_concurrent_requests: Option<u32>,
}

/// One provider: where its API is, how to authenticate, what protocol it
/// speaks, and which surfaces it serves.
#[derive(Debug)]
pub struct ProviderSpec {
    pub(crate) name: String,
    pub(crate) base_url: String,
    pub(crate) env_api_key: Option<String>,
    pub(crate) protocol: Protocol,
    pub(crate) supported_apis: Vec<Api>,
}

/// One routable model: the name it ships upstream, and its published limits.
#[derive(Debug)]
pub struct ModelSpec {
    /// The provider serving this model: the key its [`ProviderSpec`] is filed
    /// under, and the first segment of this model's own key.
    pub(crate) provider: String,
    /// Upstream model name: what ships on the wire.
    pub(crate) model: String,
    pub(crate) capabilities: Capabilities,
}

/// The resolved roster: providers, and every routable `model_str` under them.
#[derive(Debug)]
pub struct Registry {
    /// In roster order; names are distinct.
    pub(crate) providers: Vec<ProviderSpec>,
    /// Keyed by the whole `model_str`, prefix included; keys are distinct.
    pub(crate) models: Vec<(String, ModelSpec)>,
}

pub struct ProviderView {
    pub name: Seq<char>,
    pub base_url: Seq<char>,
    pub env_api_key: Option<Seq<char>>,
    pub protocol: Protocol,
    pub supported_apis: Seq<Api>,
}

pub struct ModelView {
    pub provider: Seq<char>,
    pub model: Seq<char>,
    pub capabilities: CapabilitiesView,
}

pub struct CapabilitiesView {
    pub max_input_tokens: Option<u32>,
    pub max_output_tokens: Option<u32>,
    pub max_concurrent_requests: Option<u32>,
}

pub struct RegistryView {
    pub providers: Seq<ProviderView>,
    pub models: Seq<(Seq<char>, ModelView)>,
}

/// The view of an optional string.
pub open spec fn opt_view(o: Option<String>) -> Option<Seq<char>> {
    match o {
        Some(s) => Some(s@),
        None => None,
    }
}

impl View for ProviderSpec {
    type V = ProviderView;

    closed spec fn view(&self) -> ProviderView {
        ProviderView {
            name: self.name@,
            base_url: self.base_url@,
            env_api_key: opt_view(self.env_api_key),
            protocol: self.protocol,
            supported_apis: self.supported_apis@,
        }
    }
}

impl View for ModelSpec {
    type V = ModelView;

    closed spec fn view(&self) -> ModelView {
        ModelView { provider: self.provider@, model: self.model@, capabilities: self.capabilities@ }
    }
}

impl View for Capabilities {
    type V = CapabilitiesView;

    closed spec fn view(&self) -> CapabilitiesView {
        CapabilitiesView {
            max_input_tokens: self.max_input_tokens,
            max_output_tokens: self.max_output_tokens,
            max_concurrent_requests: self.max_concurrent_requests,
        }
    }
}

impl View for Registry {
    type V = RegistryView;

    closed spec fn view(&self) -> RegistryView {
        RegistryView {
            providers: self.providers@.map_values(|p: ProviderSpec| p@),
            models: self.models@.map_values(|e: (String, ModelSpec)| (e.0@, e.1@)),
        }
    }
}

/// A provider's view is its fields' views.
pub(crate) broadcast proof fn lemma_provider_view(p: ProviderSpec)
    ensures
        #[trigger] p@ == (ProviderView {
            name: p.name@,
            base_url: p.base_url@,
            env_api_key: opt_view(p.env_api_key),
            protocol: p.protocol,
            supported_apis: p.supported_apis@,
        }),
{
}

/// A model's view is its fields' views.
pub(crate) broadcast proof fn lemma_model_view(m: ModelSpec)
    ensures
        #[trigger] m@ == (ModelView {
            provider: m.provider@,
            model: m.model@,
            capabilities: m.capabilities@,
        }),
{
}

/// A capability block's view is its fields.
pub(crate) broadcast proof fn lemma_capabilities_view(c: Capabilities)
    ensures
        #[trigger] c@ == (CapabilitiesView {
            max_input_tokens: c.max_input_tokens,
            max_output_tokens: c.max_output_tokens,
            max_concurrent_requests: c.max_concurrent_requests,
        }),
{
}

/// A registry's view is the views of its rows.
pub(crate) broadcast proof fn lemma_registry_view(r: Registry)
    ensures
        #[trigger] r@ == (RegistryView {
            providers: r.providers@.map_values(|p: ProviderSpec| p@),
            models: r.models@.map_values(|e: (String, ModelSpec)| (e.0@, e.1@)),
        }),
{
}

pub(crate) broadcast group group_registry_views {
    lemma_provider_view,
    lemma_model_view,
    lemma_capabilities_view,
    lemma_registry_view,
}

/// The first provider named `name`.
pub open spec fn find_provider(ps: Seq<ProviderView>, name: Seq<char>) -> Option<ProviderView>
    decreases ps.len(),
{
    if ps.len() == 0 {
        None
    } else if ps[0].name == name {
        Some(ps[0])
    } else {
        find_provider(ps.drop_first(), name)
    }
}

/// The first model filed under `key`.
pub open spec fn find_model(ms: Seq<(Seq<char>, ModelView)>, key: Seq<char>) -> Option<ModelView>
    decreases ms.len(),
{
    if ms.len() == 0 {
        None
    } else if ms[0].0 == key {
        Some(ms[0].1)
    } else {
        find_model(ms.drop_first(), key)
    }
}

/// Whether `key` is filed under `provider`: `{provider}/{name}` with a
/// non-empty name.
pub open spec fn key_under(key: Seq<char>, provider: Seq<char>) -> bool {
    &&& key.len() > provider.len() + 1
    &&& key.take(provider.len() as int) == provider
    &&& key[provider.len() as int] == '/'
}

impl RegistryView {
    /// The shape every loaded registry has: distinct provider names, distinct
    /// model keys, and every model filed under a provider the table holds.
    pub open spec fn wf(self) -> bool {
        &&& forall|i: int, j: int|
            0 <= i < j < self.providers.len() ==> self.providers[i].name != self.providers[j].name
        &&& forall|i: int, j: int|
            0 <= i < j < self.models.len() ==> self.models[i].0 != self.models[j].0
        &&& forall|i: int|
            0 <= i < self.models.len() ==> {
                &&& find_provider(self.providers, self.models[i].1.provider) is Some
                &&& key_under(self.models[i].0, self.models[i].1.provider)
            }
    }

    /// The model row filed under `key`, and the provider row it names.
    pub open spec fn resolve(self, key: Seq<char>) -> Option<(ProviderView, ModelView)> {
        match find_model(self.models, key) {
            None => None,
            Some(m) => match find_provider(self.providers, m.provider) {
                Some(p) => Some((p, m)),
                None => None,
            },
        }
    }
}

impl Capabilities {
    /// Nothing recorded: what an entry with no `capabilities:` block holds.
    pub(crate) fn blank() -> (r: Self)
        ensures
            r@.max_input_tokens is None,
            r@.max_output_tokens is None,
            r@.max_concurrent_requests is None,
    {
        Capabilities { max_input_tokens: None, max_output_tokens: None, max_concurrent_requests: None }
    }

    /// Largest documented input context, in tokens.
    pub fn max_input_tokens(&self) -> (r: Option<u32>)
        ensures
            r == self@.max_input_tokens,
    {
        self.max_input_tokens
    }

    /// Largest documented output length, in tokens.
    pub fn max_output_tokens(&self) -> (r: Option<u32>)
        ensures
            r == self@.max_output_tokens,
    {
        self.max_output_tokens
    }

    /// Documented ceiling on requests served at once.
    pub fn max_concurrent_requests(&self) -> (r: Option<u32>)
        ensures
            r == self@.max_concurrent_requests,
    {
        self.max_concurrent_requests
    }
}

/// A copy of an optional string.
pub fn copy_opt(o: &Option<String>) -> (r: Option<String>)
    ensures
        opt_view(r) == opt_view(*o),
{
    match o {
        Some(s) => Some(s.clone()),
        None => None,
    }
}

/// A copy of a list of surfaces.
pub fn copy_apis(apis: &Vec<Api>) -> (r: Vec<Api>)
    ensures
        r@ == apis@,
{
    let mut r: Vec<Api> = Vec::new();
    let mut i: usize = 0;
    while i < apis.len()
        invariant
            i <= apis.len(),
            r@ == apis@.take(i as int),
        decreases apis.len() - i,
    {
        r.push(apis[i]);
        i = i + 1;
        assert(r@ =~= apis@.take(i as int));
    }
    assert(apis@.take(apis@.len() as int) =~= apis@);
    r
}

impl ProviderSpec {
    /// The provider's name: its key in the roster, and the first segment of
    /// every `model_str` it serves.
    pub fn name(&self) -> (r: &str)
        ensures
            r@ == self@.name,
    {
        self.name.as_str()
    }

    /// The provider's API root, version prefix included; an endpoint appends
    /// its own path.
    pub fn base_url(&self) -> (r: &str)
        ensures
            r@ == self@.base_url,
    {
        self.base_url.as_str()
    }

    /// The environment variable warpllm reads this provider's API key from,
    /// if the roster names one.
    pub fn env_api_key(&self) -> (r: Option<&str>)
        ensures
            r is Some == self@.env_api_key is Some,
            r matches Some(v) ==> Some(v@) == self@.env_api_key,
    {
        match &self.env_api_key {
            Some(v) => Some(v.as_str()),
            None => None,
        }
    }

    /// The wire format this provider speaks.
    pub fn protocol(&self) -> (r: Protocol)
        ensures
            r == self@.protocol,
    {
        self.protocol
    }

    /// The API surfaces this provider serves.
    pub fn supported_apis(&self) -> (r: &[Api])
        ensures
            r@ == self@.supported_apis,
    {
        self.supported_apis.as_slice()
    }

    /// Whether this provider serves `api`. Each surface is its own claim.
    pub fn supports_api(&self, api: Api) -> (r: bool)
        ensures
            r == self@.supported_apis.contains(api),
    {
        let mut i: usize = 0;
        while i < self.supported_apis.len()
            invariant
                i <= self.supported_apis.len(),
                forall|j: int| 0 <= j < i ==> self.supported_apis@[j] != api,
            decreases self.supported_apis.len() - i,
        {
            if self.supported_apis[i] == api {
                return true;
            }
            i = i + 1;
        }
        false
    }

    /// A copy of this spec.
    pub fn copy(&self) -> (r: ProviderSpec)
        ensures
            r@ == self@,
    {
        ProviderSpec {
            name: self.name.clone(),
            base_url: self.base_url.clone(),
            env_api_key: copy_opt(&self.env_api_key),
            protocol: self.protocol,
            supported_apis: copy_apis(&self.supported_apis),
        }
    }
}

impl ModelSpec {
    /// The model name as it ships upstream.
    pub fn model(&self) -> (r: &str)
        ensures
            r@ == self@.model,
    {
        self.model.as_str()
    }

    /// The provider this model is filed under.
    pub fn provider(&self) -> (r: &str)
        ensures
            r@ == self@.provider,
    {
        self.provider.as_str()
    }

    /// This model's published limits.
    pub fn capabilities(&self) -> (r: &Capabilities)
        ensures
            r@ == self@.capabilities,
    {
        &self.capabilities
    }

    /// A copy of this spec.
    pub fn copy(&self) -> (r: ModelSpec)
        ensures
            r@ == self@,
    {
        ModelSpec {
            provider: self.provider.clone(),
            model: self.model.clone(),
            capabilities: self.capabilities,
        }
    }
}

impl Registry {
    /// The provider row named `name`.
    pub fn provider(&self, name: &str) -> (r: Option<&ProviderSpec>)
        ensures
            r is Some == find_provider(self@.providers, name@) is Some,
            r matches Some(p) ==> find_provider(self@.providers, name@) == Some(p@),
    {
        let ghost ps = self@.providers;
        let mut i: usize = 0;
        assert(ps.skip(0) =~= ps);
        while i < self.providers.len()
            invariant
                i <= self.providers.len(),
                ps == self@.providers,
                ps.len() == self.providers.len(),
                forall|j: int| 0 <= j < ps.len() ==> ps[j] == #[trigger] self.providers@[j]@,
                find_provider(ps, name@) == find_provider(ps.skip(i as int), name@),
            decreases self.providers.len() - i,
        {
            assert(ps.skip(i as int).drop_first() =~= ps.skip(i as int + 1));
            assert(ps.skip(i as int)[0] == ps[i as int]);
            if crate::text::text_eq(self.providers[i].name.as_str(), name) {
                return Some(&self.providers[i]);
            }
            i = i + 1;
        }
        None
    }

    /// The model row filed under `key`: the whole `model_str`, matched exactly.
    pub fn model(&self, key: &str) -> (r: Option<&ModelSpec>)
        ensures
            r is Some == find_model(self@.models, key@) is Some,
            r matches Some(m) ==> find_model(self@.models, key@) == Some(m@),
    {
        let ghost ms = self@.models;
        let mut i: usize = 0;
        assert(ms.skip(0) =~= ms);
        while i < self.models.len()
            invariant
                i <= self.models.len(),
                ms == self@.models,
                ms.len() == self.models.len(),
                forall|j: int|
                    0 <= j < ms.len() ==> ms[j] == (#[trigger] self.models@[j].0@, self.models@[j].1@),
                find_model(ms, key@) == find_model(ms.skip(i as int), key@),
            decreases self.models.len() - i,
        {
            assert(ms.skip(i as int).drop_first() =~= ms.skip(i as int + 1));
            assert(ms.skip(i as int)[0] == ms[i as int]);
            if crate::text::text_eq(self.models[i].0.as_str(), key) {
                return Some(&self.models[i].1);
            }
            i = i + 1;
        }
        None
    }

    /// Every provider name, in roster order.
    pub fn provider_names(&self) -> (r: Vec<String>)
        ensures
            r@.len() == self@.providers.len(),
            forall|i: int| 0 <= i < r@.len() ==> #[trigger] r@[i]@ == self@.providers[i].name,
    {
        let mut r: Vec<String> = Vec::new();
        let mut i: usize = 0;
        while i < self.providers.len()
            invariant
                i <= self.providers.len(),
                r@.len() == i,
                self@.providers.len() == self.providers.len(),
                forall|j: int| 0 <= j < i ==> #[trigger] r@[j]@ == self@.providers[j].name,
            decreases self.providers.len() - i,
        {
            assert(self@.providers[i as int] == self.providers@[i as int]@);
            r.push(self.providers[i].name.clone());
            i = i + 1;
        }
        r
    }

    /// Every routable `model_str`, in roster order.
    pub fn model_keys(&self) -> (r: Vec<String>)
        ensures
            r@.len() == self@.models.len(),
            forall|i: int| 0 <= i < r@.len() ==> #[trigger] r@[i]@ == self@.models[i].0,
    {
        let mut r: Vec<String> = Vec::new();
        let mut i: usize = 0;
        while i < self.models.len()
            invariant
                i <= self.models.len(),
                r@.len() == i,
                self@.models.len() == self.models.len(),
                forall|j: int| 0 <= j < i ==> #[trigger] r@[j]@ == self@.models[j].0,
            decreases self.models.len() - i,
        {
            assert(self@.models[i as int] == (self.models@[i as int].0@, self.models@[i as int].1@));
            r.push(self.models[i].0.clone());
            i = i + 1;
        }
        r
    }
}

} // verus!
