//! The model roster and the lookup over it.
//!
//! The roster is pure data: adding a provider or a model is an edit to the
//! roster document, never to the code. `load` turns the document into the two
//! tables a lookup answers from, `lint` holds what is merely true of a tidy
//! roster, and `types` is what a spec is.

pub mod decode;
pub mod lint;
pub mod load;
pub mod specs;
pub mod types;

use vstd::prelude::*;

use crate::error::Error;
use crate::text::join2;

pub use types::{Capabilities, ModelSpec, ProviderSpec, Registry};

use self::load::{law_loaded_registry_is_wf, law_loaded_rows_follow_the_roster, load, load_text, provider_name_problem, roster_of};
use self::specs::SPECS_YAML;
use self::load::lemma_find_provider;
use self::types::{find_model, key_under, ModelView, RegistryView};

verus! {

broadcast use crate::registry::types::group_registry_views;

/// The model row filed under `model_str`, and the provider row it names.
///
/// The key matches exactly or not at all: no pattern, no catch-all, no
/// fallback, so a name no entry claims resolves to nothing.
pub fn resolve<'a>(registry: &'a Registry, model_str: &str) -> (r: Option<(&'a ProviderSpec, &'a ModelSpec)>)
    ensures
        r is Some == registry@.resolve(model_str@) is Some,
        r matches Some((p, m)) ==> registry@.resolve(model_str@) == Some((p@, m@)),
{
    match registry.model(model_str) {
        None => None,
        Some(model) => match registry.provider(model.provider.as_str()) {
            None => None,
            Some(provider) => Some((provider, model)),
        },
    }
}

/// What warpllm knows about a `model_str` such as `"openai/gpt-5.6"`: the
/// provider that serves it, and the model itself.
///
/// A name nothing is registered under is [`Error::InvalidModel`], never a
/// guess. The shipped roster is read on each call; were it ever malformed, the
/// answer is [`Error::Internal`] naming the problem.
pub fn fetch_model(model_str: &str) -> (r: Result<(ProviderSpec, ModelSpec), Error>)
    ensures
        match load_text(SPECS_YAML@) {
            Err(e) => r matches Err(Error::Internal(m)) && m@ == "specs.yaml: "@ + e,
            Ok(reg) => match reg.resolve(model_str@) {
                Some((p, m)) => r matches Ok((rp, rm)) && rp@ == p && rm@ == m,
                None => r matches Err(Error::InvalidModel { given }) && given@ == model_str@,
            },
        },
{
    match load(SPECS_YAML) {
        Err(e) => Err(Error::Internal(join2("specs.yaml: ", e.as_str()))),
        Ok(registry) => match resolve(&registry, model_str) {
            Some((provider, model)) => Ok((provider.copy(), model.copy())),
            None => Err(Error::InvalidModel { given: crate::text::owned(model_str) }),
        },
    }
}

/// A model is found under a key exactly when a row is filed under that key.
pub proof fn lemma_find_model(ms: Seq<(Seq<char>, ModelView)>, key: Seq<char>)
    ensures
        find_model(ms, key) is Some <==> exists|i: int| 0 <= i < ms.len() && ms[i].0 == key,
        find_model(ms, key) matches Some(m) ==> exists|i: int| 0 <= i < ms.len() && ms[i] == (key, m),
    decreases ms.len(),
{
    if ms.len() > 0 {
        lemma_find_model(ms.drop_first(), key);
        if ms[0].0 != key {
            if exists|i: int| 0 <= i < ms.len() && ms[i].0 == key {
                let i = choose|i: int| 0 <= i < ms.len() && ms[i].0 == key;
                assert(ms.drop_first()[i - 1].0 == key);
            }
            if find_model(ms, key) is Some {
                let m = find_model(ms, key)->Some_0;
                let i = choose|i: int| 0 <= i < ms.drop_first().len() && ms.drop_first()[i] == (key, m);
                assert(ms[i + 1] == (key, m));
            }
        } else {
            assert(ms[0] == (key, ms[0].1));
        }
    }
}

/// In a loaded registry a key matches its own entry or nothing: a lookup
/// succeeds exactly when a row is filed under that very key, hands back that
/// row, and hands back the provider the row names, whose name is the key's
/// first segment.
pub proof fn law_resolve_exact(reg: RegistryView, key: Seq<char>)
    requires
        reg.wf(),
    ensures
        reg.resolve(key) is Some <==> exists|i: int| 0 <= i < reg.models.len() && reg.models[i].0 == key,
        reg.resolve(key) matches Some((p, m)) ==> {
            &&& exists|i: int| 0 <= i < reg.models.len() && reg.models[i] == (key, m)
            &&& p.name == m.provider
            &&& key_under(key, p.name)
        },
{
    lemma_find_model(reg.models, key);
    if let Some(m) = find_model(reg.models, key) {
        let i = choose|i: int| 0 <= i < reg.models.len() && reg.models[i] == (key, m);
        assert(find_provider_holds(reg, i));
        lemma_find_provider(reg.providers, m.provider);
    }
}

spec fn find_provider_holds(reg: RegistryView, i: int) -> bool {
    &&& crate::registry::types::find_provider(reg.providers, reg.models[i].1.provider) is Some
    &&& key_under(reg.models[i].0, reg.models[i].1.provider)
}

/// In a loaded registry, two keys whose rows name the same provider resolve
/// to the very same provider row.
pub proof fn law_keys_of_one_provider_share_its_row(reg: RegistryView, k1: Seq<char>, k2: Seq<char>)
    requires
        reg.wf(),
    ensures
        reg.resolve(k1) matches Some((p1, m1)) ==> (reg.resolve(k2) matches Some((p2, m2)) ==> (
        m1.provider == m2.provider ==> p1 == p2)),
{
}

/// Whatever the shipped roster loads into, a key it resolves is served by
/// the provider whose name is the key's first `/`-separated segment: that
/// name is non-empty, holds no `/`, is the name the model row files it
/// under, and the key continues past it with `/` and a non-empty rest.
pub proof fn law_fetched_provider_is_the_keys_first_segment(key: Seq<char>)
    ensures
        load_text(SPECS_YAML@) matches Ok(reg) ==> (reg.resolve(key) matches Some((p, m)) ==> {
            &&& p.name == m.provider
            &&& p.name.len() > 0
            &&& !p.name.contains('/')
            &&& key_under(key, p.name)
        }),
{
    if let Ok(file) = roster_of(crate::yaml::yaml_document(SPECS_YAML@)) {
        law_loaded_registry_is_wf(file);
        law_loaded_rows_follow_the_roster(file);
        if let Ok(reg) = load_text(SPECS_YAML@) {
            law_resolve_exact(reg, key);
            if let Some((p, m)) = reg.resolve(key) {
                lemma_find_provider(reg.providers, m.provider);
                let k = choose|k: int| 0 <= k < reg.providers.len() && reg.providers[k].name == m.provider;
                assert(provider_name_problem(reg.providers[k].name) is None);
            }
        }
    }
}

} // verus!
