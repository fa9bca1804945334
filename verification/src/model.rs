//! The per-model roster by `provider/model` string, with each provider's base
//! spec standing in for the models it does not list.
//!
//! Every model resolves through its provider's base spec (the entry whose
//! model is [`ANY_MODEL`]) until it earns an entry of its own, and the name
//! the caller asked for is what ships, never the marker. A bare name with no
//! `/` is rejected rather than defaulting to some provider.

use vstd::prelude::*;

use crate::text::{chars_of, join2, owned, string_of, text_eq};
use crate::types::Protocol;

verus! {

/// The `model` of a provider's base spec.
pub const ANY_MODEL: &'static str = "*";

/// What a model can do. Parameter support is passthrough: the provider is
/// the authority and rejects what it does not accept.
#[derive(Debug, Clone)]
pub struct Capabilities {
    /// Endpoint paths under the provider's `base_url` this model serves,
    /// such as `"/chat/completions"`.
    pub supported_endpoints: Vec<String>,
    pub max_input_tokens: Option<u32>,
    pub max_output_tokens: Option<u32>,
    /// Requests this model serves at once. `None` means undocumented, not
    /// unlimited.
    pub max_concurrent_requests: Option<u32>,
}

/// Everything known about one model: how to reach it and what it can do.
#[derive(Debug, Clone)]
pub struct ModelSpec {
    /// The prefix in `provider/model` strings.
    pub provider: String,
    /// Upstream model name, provider prefix stripped; [`ANY_MODEL`] in a
    /// provider's base spec.
    pub model: String,
    /// API root including any version prefix.
    pub base_url: String,
    /// Environment variable holding the provider's API key.
    pub env_key: String,
    pub protocol: Protocol,
    pub capabilities: Capabilities,
}

pub struct CapabilitiesView {
    pub supported_endpoints: Seq<Seq<char>>,
    pub max_input_tokens: Option<u32>,
    pub max_output_tokens: Option<u32>,
    pub max_concurrent_requests: Option<u32>,
}

pub struct ModelSpecView {
    pub provider: Seq<char>,
    pub model: Seq<char>,
    pub base_url: Seq<char>,
    pub env_key: Seq<char>,
    pub protocol: Protocol,
    pub capabilities: CapabilitiesView,
}

impl View for Capabilities {
    type V = CapabilitiesView;

    open spec fn view(&self) -> CapabilitiesView {
        CapabilitiesView {
            supported_endpoints: self.supported_endpoints@.map_values(|e: String| e@),
            max_input_tokens: self.max_input_tokens,
            max_output_tokens: self.max_output_tokens,
            max_concurrent_requests: self.max_concurrent_requests,
        }
    }
}

impl View for ModelSpec {
    type V = ModelSpecView;

    open spec fn view(&self) -> ModelSpecView {
        ModelSpecView {
            provider: self.provider@,
            model: self.model@,
            base_url: self.base_url@,
            env_key: self.env_key@,
            protocol: self.protocol,
            capabilities: self.capabilities@,
        }
    }
}

impl Capabilities {
    /// Whether this model serves `endpoint`.
    pub fn supports_endpoint(&self, endpoint: &str) -> (r: bool)
        ensures
            r == self@.supported_endpoints.contains(endpoint@),
    {
        let mut i: usize = 0;
        while i < self.supported_endpoints.len()
            invariant
                i <= self.supported_endpoints.len(),
                forall|j: int| 0 <= j < i ==> self@.supported_endpoints[j] != endpoint@,
            decreases self.supported_endpoints.len() - i,
        {
            if text_eq(self.supported_endpoints[i].as_str(), endpoint) {
                assert(self@.supported_endpoints[i as int] == endpoint@);
                return true;
            }
            i = i + 1;
        }
        false
    }
}

fn copy_strings(v: &Vec<String>) -> (r: Vec<String>)
    ensures
        r@.map_values(|e: String| e@) == v@.map_values(|e: String| e@),
{
    let mut r: Vec<String> = Vec::new();
    let mut i: usize = 0;
    while i < v.len()
        invariant
            i <= v.len(),
            r@.map_values(|e: String| e@) == v@.map_values(|e: String| e@).take(i as int),
        decreases v.len() - i,
    {
        let ghost before = r@.map_values(|e: String| e@);
        r.push(v[i].clone());
        assert(r@.map_values(|e: String| e@) =~= before.push(v@[i as int]@));
        assert(v@.map_values(|e: String| e@).take(i as int + 1) =~= v@.map_values(|e: String| e@).take(
            i as int,
        ).push(v@[i as int]@));
        i = i + 1;
    }
    assert(v@.map_values(|e: String| e@).take(i as int) =~= v@.map_values(|e: String| e@));
    r
}

impl ModelSpec {
    /// A copy of this spec.
    pub fn copy(&self) -> (r: ModelSpec)
        ensures
            r@ == self@,
    {
        ModelSpec {
            provider: self.provider.clone(),
            model: self.model.clone(),
            base_url: self.base_url.clone(),
            env_key: self.env_key.clone(),
            protocol: self.protocol,
            capabilities: Capabilities {
                supported_endpoints: copy_strings(&self.capabilities.supported_endpoints),
                max_input_tokens: self.capabilities.max_input_tokens,
                max_output_tokens: self.capabilities.max_output_tokens,
                max_concurrent_requests: self.capabilities.max_concurrent_requests,
            },
        }
    }
}

/// Nothing documented but the endpoints.
pub open spec fn endpoints_only(endpoints: Seq<Seq<char>>) -> CapabilitiesView {
    CapabilitiesView {
        supported_endpoints: endpoints,
        max_input_tokens: None,
        max_output_tokens: None,
        max_concurrent_requests: None,
    }
}

/// What holds for every OpenAI model; also what any unlisted one resolves to.
pub open spec fn openai_base() -> ModelSpecView {
    ModelSpecView {
        provider: "openai"@,
        model: "*"@,
        base_url: "https://api.openai.com/v1"@,
        env_key: "OPENAI_API_KEY"@,
        protocol: Protocol::OpenAiCompat,
        capabilities: endpoints_only(seq!["/chat/completions"@, "/responses"@]),
    }
}

/// What holds for every DeepSeek model; also what any unlisted one resolves
/// to.
pub open spec fn deepseek_base() -> ModelSpecView {
    ModelSpecView {
        provider: "deepseek"@,
        model: "*"@,
        base_url: "https://api.deepseek.com"@,
        env_key: "DEEPSEEK_API_KEY"@,
        protocol: Protocol::OpenAiCompat,
        capabilities: endpoints_only(seq!["/chat/completions"@]),
    }
}

/// A DeepSeek model that differs from the base only in its concurrency.
pub open spec fn deepseek_with(model: Seq<char>, concurrency: u32) -> ModelSpecView {
    ModelSpecView {
        model,
        capabilities: CapabilitiesView {
            max_concurrent_requests: Some(concurrency),
            ..deepseek_base().capabilities
        },
        ..deepseek_base()
    }
}

/// OpenAI's roster: its base spec alone.
pub open spec fn openai_roster() -> Seq<ModelSpecView> {
    seq![openai_base()]
}

/// DeepSeek's roster: the base, then the V4 pair, which diverge on
/// concurrency: Flash serves five times what Pro does.
pub open spec fn deepseek_roster() -> Seq<ModelSpecView> {
    seq![
        deepseek_base(),
        deepseek_with("deepseek-v4-flash"@, 2500),
        deepseek_with("deepseek-v4-pro"@, 500),
    ]
}

/// The whole roster, provider by provider.
pub open spec fn roster() -> Seq<ModelSpecView> {
    openai_roster() + deepseek_roster()
}

fn endpoints(paths: Vec<&str>) -> (r: Vec<String>)
    ensures
        r@.map_values(|e: String| e@) == paths@.map_values(|p: &str| p@),
{
    let mut r: Vec<String> = Vec::new();
    let mut i: usize = 0;
    while i < paths.len()
        invariant
            i <= paths.len(),
            r@.map_values(|e: String| e@) == paths@.map_values(|p: &str| p@).take(i as int),
        decreases paths.len() - i,
    {
        let ghost before = r@.map_values(|e: String| e@);
        r.push(owned(paths[i]));
        assert(r@.map_values(|e: String| e@) =~= before.push(paths@[i as int]@));
        assert(paths@.map_values(|p: &str| p@).take(i as int + 1) =~= paths@.map_values(|p: &str| p@).take(
            i as int,
        ).push(paths@[i as int]@));
        i = i + 1;
    }
    assert(paths@.map_values(|p: &str| p@).take(i as int) =~= paths@.map_values(|p: &str| p@));
    r
}

fn base(provider: &str, base_url: &str, env_key: &str, paths: Vec<&str>) -> (r: ModelSpec)
    ensures
        r@ == (ModelSpecView {
            provider: provider@,
            model: "*"@,
            base_url: base_url@,
            env_key: env_key@,
            protocol: Protocol::OpenAiCompat,
            capabilities: endpoints_only(paths@.map_values(|p: &str| p@)),
        }),
{
    ModelSpec {
        provider: owned(provider),
        model: owned(ANY_MODEL),
        base_url: owned(base_url),
        env_key: owned(env_key),
        protocol: Protocol::OpenAiCompat,
        capabilities: Capabilities {
            supported_endpoints: endpoints(paths),
            max_input_tokens: None,
            max_output_tokens: None,
            max_concurrent_requests: None,
        },
    }
}

/// OpenAI's roster.
pub fn openai_models() -> (r: Vec<ModelSpec>)
    ensures
        r@.map_values(|m: ModelSpec| m@) == openai_roster(),
{
    let b = base("openai", "https://api.openai.com/v1", "OPENAI_API_KEY", vec!["/chat/completions", "/responses"]);
    assert(b@.capabilities.supported_endpoints =~= seq!["/chat/completions"@, "/responses"@]);
    assert(b@ == openai_base());
    let r = vec![b];
    assert(r@.map_values(|m: ModelSpec| m@) =~= openai_roster());
    r
}

/// DeepSeek's roster.
pub fn deepseek_models() -> (r: Vec<ModelSpec>)
    ensures
        r@.map_values(|m: ModelSpec| m@) == deepseek_roster(),
{
    let b = base("deepseek", "https://api.deepseek.com", "DEEPSEEK_API_KEY", vec!["/chat/completions"]);
    assert(b@.capabilities.supported_endpoints =~= seq!["/chat/completions"@]);
    assert(b@ == deepseek_base());
    let mut flash = b.copy();
    flash.model = owned("deepseek-v4-flash");
    flash.capabilities.max_concurrent_requests = Some(2500);
    let mut pro = b.copy();
    pro.model = owned("deepseek-v4-pro");
    pro.capabilities.max_concurrent_requests = Some(500);
    assert(flash@ == deepseek_with("deepseek-v4-flash"@, 2500));
    assert(pro@ == deepseek_with("deepseek-v4-pro"@, 500));
    let r = vec![b, flash, pro];
    assert(r@.map_values(|m: ModelSpec| m@) =~= deepseek_roster());
    r
}

/// The whole roster, provider by provider.
pub fn models() -> (r: Vec<ModelSpec>)
    ensures
        r@.map_values(|m: ModelSpec| m@) == roster(),
{
    let mut r = openai_models();
    let mut d = deepseek_models();
    let ghost a = r@.map_values(|m: ModelSpec| m@);
    let ghost b = d@.map_values(|m: ModelSpec| m@);
    r.append(&mut d);
    assert(r@.map_values(|m: ModelSpec| m@) =~= a + b);
    r
}

/// The index of the first `c` in `s`.
pub open spec fn first_index(s: Seq<char>, c: char, i: int) -> Option<int>
    decreases s.len() - i,
{
    if i < 0 || i >= s.len() {
        None
    } else if s[i] == c {
        Some(i)
    } else {
        first_index(s, c, i + 1)
    }
}

/// The first roster entry, from `i`, for `provider` and `model`.
pub open spec fn find_entry(r: Seq<ModelSpecView>, provider: Seq<char>, model: Seq<char>, i: int) -> Option<int>
    decreases r.len() - i,
{
    if i < 0 || i >= r.len() {
        None
    } else if r[i].provider == provider && r[i].model == model {
        Some(i)
    } else {
        find_entry(r, provider, model, i + 1)
    }
}

/// A spec with the caller's model name written in.
pub open spec fn named(s: ModelSpecView, model: Seq<char>) -> ModelSpecView {
    ModelSpecView { model, ..s }
}

/// What a `"provider/model"` string resolves to against roster `r`: its own
/// entry if there is one, else the provider's base spec, with the requested
/// name written in. The first `/` separates the two, so a model name may
/// itself hold one.
pub open spec fn resolve_in(r: Seq<ModelSpecView>, requested: Seq<char>) -> Option<ModelSpecView> {
    match first_index(requested, '/', 0) {
        None => None,
        Some(k) => {
            let provider = requested.take(k);
            let model = requested.skip(k + 1);
            if model.len() == 0 {
                None
            } else {
                match find_entry(r, provider, model, 0) {
                    Some(i) => Some(named(r[i], model)),
                    None => match find_entry(r, provider, "*"@, 0) {
                        Some(i) => Some(named(r[i], model)),
                        None => None,
                    },
                }
            }
        },
    }
}

/// A `model_str` no entry answers for.
#[derive(Debug)]
pub struct UnsupportedModel {
    pub given: String,
}

impl UnsupportedModel {
    /// How the rejection reads.
    pub fn text(&self) -> (r: String)
        ensures
            r@ == "invalid model string '"@ + self.given@ + "': not a supported provider"@,
    {
        let mut r = join2("invalid model string '", self.given.as_str());
        r.append("': not a supported provider");
        r
    }
}

fn find_entry_exec(r: &Vec<ModelSpec>, provider: &str, model: &str) -> (res: Option<usize>)
    ensures
        match find_entry(r@.map_values(|m: ModelSpec| m@), provider@, model@, 0) {
            None => res is None,
            Some(i) => res == Some(i as usize),
        },
{
    let ghost v = r@.map_values(|m: ModelSpec| m@);
    let mut i: usize = 0;
    while i < r.len()
        invariant
            i <= r.len(),
            v == r@.map_values(|m: ModelSpec| m@),
            find_entry(v, provider@, model@, 0) == find_entry(v, provider@, model@, i as int),
        decreases r.len() - i,
    {
        if text_eq(r[i].provider.as_str(), provider) && text_eq(r[i].model.as_str(), model) {
            return Some(i);
        }
        i = i + 1;
    }
    None
}

proof fn lemma_find_entry(r: Seq<ModelSpecView>, provider: Seq<char>, model: Seq<char>, i: int)
    requires
        0 <= i,
    ensures
        find_entry(r, provider, model, i) matches Some(k) ==> i <= k < r.len(),
    decreases r.len() - i,
{
    if i < r.len() && !(r[i].provider == provider && r[i].model == model) {
        lemma_find_entry(r, provider, model, i + 1);
    }
}

proof fn lemma_first_index(s: Seq<char>, c: char, i: int)
    requires
        0 <= i,
    ensures
        first_index(s, c, i) matches Some(k) ==> i <= k < s.len() && s[k] == c,
    decreases s.len() - i,
{
    if i < s.len() && s[i] != c {
        lemma_first_index(s, c, i + 1);
    }
}

/// Resolves a `"provider/model"` string into the spec for that model: its own
/// entry if the roster has one, else the provider's base spec with the
/// requested name written in.
pub fn parse_model(requested: &str) -> (r: Result<ModelSpec, UnsupportedModel>)
    ensures
        match resolve_in(roster(), requested@) {
            Some(s) => r matches Ok(spec) && spec@ == s,
            None => r matches Err(e) && e.given@ == requested@,
        },
{
    let chars = chars_of(requested);
    let mut k: usize = 0;
    while k < chars.len() && chars[k] != '/'
        invariant
            k <= chars.len(),
            chars@ == requested@,
            first_index(requested@, '/', 0) == first_index(requested@, '/', k as int),
        decreases chars.len() - k,
    {
        k = k + 1;
    }
    proof {
        lemma_first_index(requested@, '/', 0);
    }
    if k == chars.len() || k + 1 == chars.len() {
        proof {
            if k + 1 == chars.len() {
                assert(requested@.skip(k as int + 1).len() == 0);
            }
        }
        return Err(UnsupportedModel { given: owned(requested) });
    }
    let provider = string_of(subrange(chars.as_slice(), 0, k).as_slice());
    let model = string_of(subrange(chars.as_slice(), k + 1, chars.len()).as_slice());
    assert(provider@ =~= requested@.take(k as int));
    assert(model@ =~= requested@.skip(k as int + 1));
    let roster = models();
    let ghost v = roster@.map_values(|m: ModelSpec| m@);
    let found = match find_entry_exec(&roster, provider.as_str(), model.as_str()) {
        Some(i) => Some(i),
        None => find_entry_exec(&roster, provider.as_str(), ANY_MODEL),
    };
    proof {
        reveal_strlit("*");
        lemma_find_entry(v, provider@, model@, 0);
        lemma_find_entry(v, provider@, "*"@, 0);
    }
    match found {
        Some(i) => {
            let mut spec = roster[i].copy();
            spec.model = model;
            Ok(spec)
        },
        None => Err(UnsupportedModel { given: owned(requested) }),
    }
}

fn subrange(s: &[char], from: usize, to: usize) -> (r: Vec<char>)
    requires
        from <= to <= s.len(),
    ensures
        r@ == s@.subrange(from as int, to as int),
{
    let mut r: Vec<char> = Vec::new();
    let mut i = from;
    while i < to
        invariant
            from <= i <= to <= s.len(),
            r@ == s@.subrange(from as int, i as int),
        decreases to - i,
    {
        r.push(s[i]);
        i = i + 1;
        assert(r@ =~= s@.subrange(from as int, i as int));
    }
    r
}

proof fn lemma_find_entry_hit(r: Seq<ModelSpecView>, provider: Seq<char>, model: Seq<char>, i: int)
    requires
        0 <= i,
    ensures
        find_entry(r, provider, model, i) matches Some(k) ==> r[k].provider == provider && r[k].model == model,
    decreases r.len() - i,
{
    if i < r.len() && !(r[i].provider == provider && r[i].model == model) {
        lemma_find_entry_hit(r, provider, model, i + 1);
    }
}

proof fn lemma_find_entry_miss(r: Seq<ModelSpecView>, provider: Seq<char>, model: Seq<char>, i: int)
    requires
        0 <= i,
        forall|j: int| i <= j < r.len() ==> (#[trigger] r[j]).provider != provider,
    ensures
        find_entry(r, provider, model, i) is None,
    decreases r.len() - i,
{
    if i < r.len() {
        lemma_find_entry_miss(r, provider, model, i + 1);
    }
}

/// What a roster entry of a provider holds: where the provider is reached,
/// which variable holds its key, and the protocol it speaks.
proof fn lemma_roster_entries()
    ensures
        roster().len() == 4,
        roster()[0] == openai_base(),
        roster()[1] == deepseek_base(),
        roster()[2] == deepseek_with("deepseek-v4-flash"@, 2500),
        roster()[3] == deepseek_with("deepseek-v4-pro"@, 500),
        forall|i: int| 0 <= i < roster().len() ==> {
            ||| (#[trigger] roster()[i]).provider == "openai"@ && roster()[i].env_key == "OPENAI_API_KEY"@
                && roster()[i].base_url == "https://api.openai.com/v1"@
                && roster()[i].protocol == Protocol::OpenAiCompat
            ||| roster()[i].provider == "deepseek"@ && roster()[i].env_key == "DEEPSEEK_API_KEY"@
                && roster()[i].base_url == "https://api.deepseek.com"@
                && roster()[i].protocol == Protocol::OpenAiCompat
        },
{
    let r = roster();
    assert(r[0] == openai_roster()[0]);
    assert(r[1] == deepseek_roster()[0]);
    assert(r[2] == deepseek_roster()[1]);
    assert(r[3] == deepseek_roster()[2]);
    assert forall|i: int| 0 <= i < r.len() implies {
        ||| (#[trigger] r[i]).provider == "openai"@ && r[i].env_key == "OPENAI_API_KEY"@
            && r[i].base_url == "https://api.openai.com/v1"@ && r[i].protocol == Protocol::OpenAiCompat
        ||| r[i].provider == "deepseek"@ && r[i].env_key == "DEEPSEEK_API_KEY"@
            && r[i].base_url == "https://api.deepseek.com"@ && r[i].protocol == Protocol::OpenAiCompat
    } by {
        if i == 0 {
        } else if i == 1 {
        } else if i == 2 {
        } else {
        }
    }
}

/// Every spec `parse_model` resolves is its provider's own: its provider is
/// the string's first `/`-segment and its model the rest; an `openai` spec is
/// reached at `https://api.openai.com/v1` with the key in `OPENAI_API_KEY`, a
/// `deepseek` one at `https://api.deepseek.com` with `DEEPSEEK_API_KEY`, and
/// both speak the OpenAI-compatible protocol. A string resolves exactly when
/// it names one of those two providers and a non-empty model.
pub proof fn law_a_resolved_spec_is_its_providers(requested: Seq<char>)
    ensures
        match first_index(requested, '/', 0) {
            None => resolve_in(roster(), requested) is None,
            Some(k) => {
                let provider = requested.take(k);
                let model = requested.skip(k + 1);
                &&& (resolve_in(roster(), requested) is Some <==> (model.len() > 0 && (provider == "openai"@
                    || provider == "deepseek"@)))
                &&& resolve_in(roster(), requested) matches Some(s) ==> {
                    &&& s.provider == provider
                    &&& s.model == model
                    &&& s.protocol == Protocol::OpenAiCompat
                    &&& provider == "openai"@ ==> s.env_key == "OPENAI_API_KEY"@ && s.base_url
                        == "https://api.openai.com/v1"@
                    &&& provider == "deepseek"@ ==> s.env_key == "DEEPSEEK_API_KEY"@ && s.base_url
                        == "https://api.deepseek.com"@
                }
            },
        },
{
    reveal_strlit("openai");
    reveal_strlit("deepseek");
    reveal_strlit("*");
    lemma_roster_entries();
    lemma_first_index(requested, '/', 0);
    let r = roster();
    if let Some(k) = first_index(requested, '/', 0) {
        let provider = requested.take(k);
        let model = requested.skip(k + 1);
        lemma_find_entry(r, provider, model, 0);
        lemma_find_entry(r, provider, "*"@, 0);
        lemma_find_entry_hit(r, provider, model, 0);
        lemma_find_entry_hit(r, provider, "*"@, 0);
        if !(provider == "openai"@ || provider == "deepseek"@) {
            lemma_find_entry_miss(r, provider, model, 0);
            lemma_find_entry_miss(r, provider, "*"@, 0);
        } else if provider == "openai"@ {
            assert(find_entry(r, provider, "*"@, 0) == Some(0int));
        } else {
            assert(r[0].provider != provider);
            assert(find_entry(r, provider, "*"@, 1) == Some(1int));
            assert(find_entry(r, provider, "*"@, 0) == Some(1int));
        }
        if let Some(s) = resolve_in(r, requested) {
            let i = match find_entry(r, provider, model, 0) {
                Some(i) => i,
                None => find_entry(r, provider, "*"@, 0)->Some_0,
            };
            assert(s == named(r[i], model));
            assert(0 <= i < r.len());
            assert(r[i].provider == provider);
            assert("openai"@.len() != "deepseek"@.len());
            assert(r[i].env_key == s.env_key && r[i].base_url == s.base_url);
            assert(s.provider == provider);
            assert(s.model == model);
            assert(s.protocol == Protocol::OpenAiCompat);
            assert(provider == "openai"@ ==> s.env_key == "OPENAI_API_KEY"@);
            assert(provider == "deepseek"@ ==> s.env_key == "DEEPSEEK_API_KEY"@);
        }
        assert(resolve_in(roster(), requested) is Some ==> (model.len() > 0 && (provider == "openai"@
                    || provider == "deepseek"@)));
        assert((model.len() > 0 && (provider == "openai"@
                    || provider == "deepseek"@)) ==> resolve_in(roster(), requested) is Some);
    }
}

/// What a resolved spec says a model can do: no documented token limits;
/// an OpenAI model serves `/chat/completions` and `/responses`, a DeepSeek
/// model `/chat/completions` alone; and only DeepSeek's V4 pair documents a
/// concurrency, Flash five times Pro's: 2500 against 500. Any other model of
/// a provider has its provider's base capabilities.
pub proof fn law_a_resolved_spec_has_its_models_capabilities(requested: Seq<char>)
    ensures
        resolve_in(roster(), requested) matches Some(s) ==> {
            &&& s.capabilities.max_input_tokens is None
            &&& s.capabilities.max_output_tokens is None
            &&& s.provider == "openai"@ ==> s.capabilities.supported_endpoints == seq![
                "/chat/completions"@,
                "/responses"@,
            ] && s.capabilities.max_concurrent_requests is None
            &&& s.provider == "deepseek"@ ==> s.capabilities.supported_endpoints == seq!["/chat/completions"@]
                && s.capabilities.max_concurrent_requests == if s.model == "deepseek-v4-flash"@ {
                Some(2500u32)
            } else if s.model == "deepseek-v4-pro"@ {
                Some(500u32)
            } else {
                None
            }
        },
{
    reveal_strlit("openai");
    reveal_strlit("deepseek");
    reveal_strlit("*");
    reveal_strlit("deepseek-v4-flash");
    reveal_strlit("deepseek-v4-pro");
    law_a_resolved_spec_is_its_providers(requested);
    lemma_roster_entries();
    lemma_first_index(requested, '/', 0);
    let r = roster();
    assert("openai"@.len() != "deepseek"@.len());
    assert("deepseek-v4-flash"@.len() != "deepseek-v4-pro"@.len());
    if let Some(k) = first_index(requested, '/', 0) {
        let provider = requested.take(k);
        let model = requested.skip(k + 1);
        if let Some(s) = resolve_in(r, requested) {
            lemma_find_entry(r, provider, model, 0);
            lemma_find_entry(r, provider, "*"@, 0);
            lemma_find_entry_hit(r, provider, model, 0);
            lemma_find_entry_hit(r, provider, "*"@, 0);
            let i = match find_entry(r, provider, model, 0) {
                Some(i) => i,
                None => find_entry(r, provider, "*"@, 0)->Some_0,
            };
            assert(s == named(r[i], model));
            assert(s.model == model);
            if provider == "deepseek"@ {
                if model == "deepseek-v4-flash"@ {
                    assert(find_entry(r, provider, model, 3) is None);
                    assert(find_entry(r, provider, model, 2) == Some(2int));
                    assert(find_entry(r, provider, model, 1) == Some(2int));
                    assert(find_entry(r, provider, model, 0) == Some(2int));
                } else if model == "deepseek-v4-pro"@ {
                    assert(find_entry(r, provider, model, 3) == Some(3int));
                    assert(find_entry(r, provider, model, 2) == Some(3int));
                    assert(find_entry(r, provider, model, 1) == Some(3int));
                    assert(find_entry(r, provider, model, 0) == Some(3int));
                } else {
                    assert(model != "*"@ ==> find_entry(r, provider, model, 4) is None);
                    assert(find_entry(r, provider, "*"@, 0) == Some(1int));
                }
            } else {
                assert(find_entry(r, provider, "*"@, 0) == Some(0int));
            }
            assert(0 <= i < 4);
        }
    }
}

} // verus!
