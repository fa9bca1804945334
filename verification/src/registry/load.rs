//! Turning a roster into the two tables the lookup answers from.
//!
//! Everything here fails on what leaves no usable spec: a provider name that
//! is not one segment, a model key that disagrees with where it sits, a key
//! that names no model. Whether a roster that loads cleanly is any good is the
//! lint's question.

use vstd::prelude::*;

use crate::registry::types::{
    find_provider, key_under, copy_apis, copy_opt, opt_view, ModelSpec, ProviderSpec, Registry, Capabilities, CapabilitiesView, ModelView, ProviderView, RegistryView,
};
use crate::registry::decode::{decode, decode_roster};
use crate::text::{chars_of, join2, string_of};
use crate::types::{Api, Protocol};
use crate::yaml::{parse_yaml, yaml_document, YamlNode};

verus! {

broadcast use crate::registry::types::group_registry_views;

/// One model as written: what it ships upstream if that differs from its key,
/// and whatever limits are published for it.
#[derive(Debug)]
pub struct ModelEntry {
    pub model: Option<String>,
    pub capabilities: Capabilities,
}

/// One provider as written.
#[derive(Debug)]
pub struct ProviderEntry {
    pub base_url: String,
    pub env_api_key: Option<String>,
    pub protocol: Protocol,
    pub supported_apis: Vec<Api>,
    /// The models routable under this provider, in roster order; `None` when
    /// the roster leaves the key out or empty.
    pub models: Option<Vec<(String, ModelEntry)>>,
}

/// The whole roster: providers, in roster order, each holding its models.
#[derive(Debug)]
pub struct RosterFile {
    pub providers: Vec<(String, ProviderEntry)>,
}

pub struct ModelEntryView {
    pub model: Option<Seq<char>>,
    pub capabilities: CapabilitiesView,
}

pub struct ProviderEntryView {
    pub base_url: Seq<char>,
    pub env_api_key: Option<Seq<char>>,
    pub protocol: Protocol,
    pub supported_apis: Seq<Api>,
    pub models: Seq<(Seq<char>, ModelEntryView)>,
}

pub struct RosterView {
    pub providers: Seq<(Seq<char>, ProviderEntryView)>,
}

impl View for ModelEntry {
    type V = ModelEntryView;

    open spec fn view(&self) -> ModelEntryView {
        ModelEntryView { model: opt_view(self.model), capabilities: self.capabilities@ }
    }
}

impl View for ProviderEntry {
    type V = ProviderEntryView;

    open spec fn view(&self) -> ProviderEntryView {
        ProviderEntryView {
            base_url: self.base_url@,
            env_api_key: opt_view(self.env_api_key),
            protocol: self.protocol,
            supported_apis: self.supported_apis@,
            models: match self.models {
                Some(ms) => ms@.map_values(|e: (String, ModelEntry)| (e.0@, e.1@)),
                None => Seq::empty(),
            },
        }
    }
}

impl View for RosterFile {
    type V = RosterView;

    open spec fn view(&self) -> RosterView {
        RosterView {
            providers: self.providers@.map_values(|e: (String, ProviderEntry)| (e.0@, e.1@)),
        }
    }
}

/// `s` in backticks.
pub open spec fn ticked(s: Seq<char>) -> Seq<char> {
    "`"@ + s + "`"@
}

/// `s` without its trailing `/` characters.
pub open spec fn trim_end_slashes(s: Seq<char>) -> Seq<char>
    decreases s.len(),
{
    if s.len() > 0 && s.last() == '/' {
        trim_end_slashes(s.drop_last())
    } else {
        s
    }
}

/// Why a provider name is unusable, if it is.
pub open spec fn provider_name_problem(name: Seq<char>) -> Option<Seq<char>> {
    if name.len() == 0 {
        Some("a provider name is empty"@)
    } else if name.contains('/') {
        Some(ticked(name) + ": a provider name is one segment and carries no `/` \u{2014} write "@
            + ticked(trim_end_slashes(name)) + ", and file its models under its own `models:` map"@)
    } else {
        None
    }
}

/// Whether some `/`-separated segment of a non-empty name is empty.
pub open spec fn has_empty_segment(name: Seq<char>) -> bool {
    ||| name[0] == '/'
    ||| name.last() == '/'
    ||| exists|i: int| 0 <= i < name.len() - 1 && #[trigger] name[i] == '/' && name[i + 1] == '/'
}

/// Why a model key cannot be filed under `provider`, if it cannot.
pub open spec fn model_key_problem(key: Seq<char>, provider: Seq<char>) -> Option<Seq<char>> {
    if !(key.len() > provider.len() && key.take(provider.len() as int) == provider
        && key[provider.len() as int] == '/') {
        Some("a model key is the whole string a caller routes with, so one under provider "@
            + ticked(provider) + " has to start with "@ + ticked(provider + "/"@))
    } else if key.len() == provider.len() + 1 {
        Some("nothing follows the "@ + ticked(provider + "/"@) + " prefix, so this key names no model"@)
    } else if has_empty_segment(key.skip(provider.len() + 1 as int)) {
        Some("an empty path segment"@)
    } else {
        None
    }
}

/// What follows the last `/` of `s` (all of `s` when it holds none).
pub open spec fn last_segment(s: Seq<char>) -> Seq<char>
    decreases s.len(),
{
    if s.len() == 0 {
        s
    } else if s.last() == '/' {
        Seq::empty()
    } else {
        last_segment(s.drop_last()).push(s.last())
    }
}

/// The model row an entry under `key` becomes.
pub open spec fn model_row(key: Seq<char>, provider: Seq<char>, entry: ModelEntryView) -> ModelView {
    ModelView {
        provider: provider,
        model: match entry.model {
            Some(m) => m,
            None => last_segment(key),
        },
        capabilities: entry.capabilities,
    }
}

/// The provider row an entry named `name` becomes.
pub open spec fn provider_row(name: Seq<char>, entry: ProviderEntryView) -> ProviderView {
    ProviderView {
        name: name,
        base_url: entry.base_url,
        env_api_key: entry.env_api_key,
        protocol: entry.protocol,
        supported_apis: entry.supported_apis,
    }
}

/// Whether a table already files a model under `key`.
pub open spec fn holds_key(ms: Seq<(Seq<char>, ModelView)>, key: Seq<char>) -> bool {
    exists|i: int| 0 <= i < ms.len() && ms[i].0 == key
}

/// Whether a table already holds a provider named `name`.
pub open spec fn holds_provider(ps: Seq<ProviderView>, name: Seq<char>) -> bool {
    exists|i: int| 0 <= i < ps.len() && ps[i].name == name
}

pub open spec fn duplicate_text(key: Seq<char>) -> Seq<char> {
    "duplicate entry with key "@ + ticked(key)
}

/// Files the first `n` models of one provider's entry into `ms`, stopping at
/// the first key that cannot be filed.
pub open spec fn file_models(
    ms: Seq<(Seq<char>, ModelView)>,
    provider: Seq<char>,
    entries: Seq<(Seq<char>, ModelEntryView)>,
    n: nat,
) -> Result<Seq<(Seq<char>, ModelView)>, Seq<char>>
    decreases n,
{
    if n == 0 {
        Ok(ms)
    } else {
        match file_models(ms, provider, entries, (n - 1) as nat) {
            Err(e) => Err(e),
            Ok(acc) => {
                let (key, entry) = entries[n - 1];
                match model_key_problem(key, provider) {
                    Some(e) => Err(ticked(key) + ": "@ + e),
                    None => if holds_key(acc, key) {
                        Err(duplicate_text(key))
                    } else {
                        Ok(acc.push((key, model_row(key, provider, entry))))
                    },
                }
            },
        }
    }
}

/// Loads the first `n` providers of a roster, stopping at the first problem.
pub open spec fn load_upto(file: RosterView, n: nat) -> Result<RegistryView, Seq<char>>
    decreases n,
{
    if n == 0 {
        Ok(RegistryView { providers: Seq::empty(), models: Seq::empty() })
    } else {
        match load_upto(file, (n - 1) as nat) {
            Err(e) => Err(e),
            Ok(reg) => {
                let (name, entry) = file.providers[n - 1];
                match provider_name_problem(name) {
                    Some(e) => Err(e),
                    None => if holds_provider(reg.providers, name) {
                        Err(duplicate_text(name))
                    } else {
                        match file_models(reg.models, name, entry.models, entry.models.len()) {
                            Err(e) => Err(e),
                            Ok(ms) => Ok(
                                RegistryView {
                                    providers: reg.providers.push(provider_row(name, entry)),
                                    models: ms,
                                },
                            ),
                        }
                    },
                }
            },
        }
    }
}

/// The tables a roster loads into, or the first problem with it.
pub open spec fn load_roster(file: RosterView) -> Result<RegistryView, Seq<char>> {
    load_upto(file, file.providers.len())
}

/// Whether `c` occurs in `s`.
pub fn has_char(s: &[char], c: char) -> (r: bool)
    ensures
        r == s@.contains(c),
{
    let mut i: usize = 0;
    while i < s.len()
        invariant
            i <= s.len(),
            forall|j: int| 0 <= j < i ==> s@[j] != c,
        decreases s.len() - i,
    {
        if s[i] == c {
            assert(s@[i as int] == c);
            return true;
        }
        i = i + 1;
    }
    false
}

fn trim_end_slashes_exec(s: &[char]) -> (r: Vec<char>)
    ensures
        r@ == trim_end_slashes(s@),
{
    let mut n = s.len();
    assert(s@.take(n as int) =~= s@);
    while n > 0 && s[n - 1] == '/'
        invariant
            n <= s.len(),
            trim_end_slashes(s@) == trim_end_slashes(s@.take(n as int)),
        decreases n,
    {
        assert(s@.take(n as int).drop_last() =~= s@.take(n - 1));
        n = n - 1;
    }
    let mut r: Vec<char> = Vec::new();
    let mut i: usize = 0;
    while i < n
        invariant
            i <= n <= s.len(),
            r@ == s@.take(i as int),
        decreases n - i,
    {
        r.push(s[i]);
        i = i + 1;
        assert(r@ =~= s@.take(i as int));
    }
    proof {
        assert(s@.take(n as int).len() > 0 ==> s@.take(n as int).last() != '/');
    }
    r
}

pub(crate) fn ticked_exec(s: &str) -> (r: String)
    ensures
        r@ == ticked(s@),
{
    let mut r = join2("`", s);
    r.append("`");
    r
}

/// A provider is one segment: it is the whole first part of a `model_str`.
pub fn validate_provider(name: &str) -> (r: Result<(), String>)
    ensures
        match provider_name_problem(name@) {
            Some(e) => r matches Err(m) && m@ == e,
            None => r is Ok,
        },
{
    let cs = chars_of(name);
    if cs.len() == 0 {
        return Err(owned_text("a provider name is empty"));
    }
    if has_char(&cs, '/') {
        let trimmed = string_of(&trim_end_slashes_exec(&cs));
        let mut m = ticked_exec(name);
        m.append(": a provider name is one segment and carries no `/` \u{2014} write ");
        let t = ticked_exec(trimmed.as_str());
        m.append(t.as_str());
        m.append(", and file its models under its own `models:` map");
        return Err(m);
    }
    Ok(())
}

fn owned_text(s: &str) -> (r: String)
    ensures
        r@ == s@,
{
    crate::text::owned(s)
}

fn has_empty_segment_exec(name: &[char]) -> (r: bool)
    requires
        name.len() > 0,
    ensures
        r == has_empty_segment(name@),
{
    if name[0] == '/' || name[name.len() - 1] == '/' {
        return true;
    }
    let mut i: usize = 0;
    while i + 1 < name.len()
        invariant
            i < name.len(),
            forall|j: int| 0 <= j < i ==> !(#[trigger] name@[j] == '/' && name@[j + 1] == '/'),
        decreases name.len() - i,
    {
        if name[i] == '/' && name[i + 1] == '/' {
            return true;
        }
        i = i + 1;
    }
    false
}

/// Everything checkable about a model key: that it agrees with the provider
/// holding it, and that every segment of it is a name.
pub fn validate_model(key: &str, provider: &str) -> (r: Result<(), String>)
    ensures
        match model_key_problem(key@, provider@) {
            Some(e) => r matches Err(m) && m@ == e,
            None => r is Ok,
        },
{
    let k = chars_of(key);
    let p = chars_of(provider);
    let mut prefixed = k.len() > p.len();
    let mut i: usize = 0;
    while prefixed && i < p.len()
        invariant
            i <= p.len(),
            prefixed ==> k.len() > p.len(),
            prefixed ==> forall|j: int| 0 <= j < i ==> k@[j] == p@[j],
            !prefixed ==> !(k@.len() > p@.len() && k@.take(p@.len() as int) == p@),
        decreases p.len() - i,
    {
        if k[i] != p[i] {
            prefixed = false;
            assert(k@.take(p@.len() as int)[i as int] != p@[i as int]);
        }
        i = i + 1;
    }
    if prefixed {
        assert(k@.take(p@.len() as int) =~= p@);
    }
    if !prefixed || k[p.len()] != '/' {
        let mut m = owned_text("a model key is the whole string a caller routes with, so one under provider ");
        let t = ticked_exec(provider);
        m.append(t.as_str());
        m.append(" has to start with ");
        let with_slash = join2(provider, "/");
        let t2 = ticked_exec(with_slash.as_str());
        m.append(t2.as_str());
        return Err(m);
    }
    if k.len() == p.len() + 1 {
        let mut m = owned_text("nothing follows the ");
        let with_slash = join2(provider, "/");
        let t = ticked_exec(with_slash.as_str());
        m.append(t.as_str());
        m.append(" prefix, so this key names no model");
        return Err(m);
    }
    let mut name: Vec<char> = Vec::new();
    let mut j = p.len() + 1;
    while j < k.len()
        invariant
            p.len() + 1 <= j <= k.len(),
            name@ == k@.subrange(p.len() + 1, j as int),
        decreases k.len() - j,
    {
        name.push(k[j]);
        j = j + 1;
        assert(name@ =~= k@.subrange(p.len() + 1, j as int));
    }
    assert(name@ =~= k@.skip(p.len() + 1 as int));
    if has_empty_segment_exec(&name) {
        return Err(owned_text("an empty path segment"));
    }
    Ok(())
}

fn last_segment_exec(s: &[char]) -> (r: Vec<char>)
    ensures
        r@ == last_segment(s@),
{
    let mut start = s.len();
    assert(s@.take(start as int) =~= s@);
    assert(s@.skip(start as int) =~= Seq::<char>::empty());
    assert(s@ + Seq::<char>::empty() =~= s@);
    while start > 0 && s[start - 1] != '/'
        invariant
            start <= s.len(),
            last_segment(s@) == last_segment(s@.take(start as int)) + s@.skip(start as int),
        decreases start,
    {
        let ghost t = s@.take(start as int);
        assert(t.drop_last() =~= s@.take(start - 1));
        assert(s@.skip(start - 1) =~= seq![t.last()] + s@.skip(start as int));
        assert(last_segment(t) == last_segment(t.drop_last()).push(t.last()));
        assert(last_segment(t.drop_last()).push(t.last()) + s@.skip(start as int)
            =~= last_segment(t.drop_last()) + (seq![t.last()] + s@.skip(start as int)));
        start = start - 1;
    }
    proof {
        let t = s@.take(start as int);
        if start > 0 {
            assert(t.last() == '/');
        }
        assert(last_segment(t) =~= Seq::<char>::empty());
        assert(Seq::<char>::empty() + s@.skip(start as int) =~= s@.skip(start as int));
    }
    let mut r: Vec<char> = Vec::new();
    let mut i = start;
    while i < s.len()
        invariant
            start <= i <= s.len(),
            r@ == s@.subrange(start as int, i as int),
        decreases s.len() - i,
    {
        r.push(s[i]);
        i = i + 1;
        assert(r@ =~= s@.subrange(start as int, i as int));
    }
    assert(r@ =~= s@.skip(start as int));
    r
}

/// One model entry, checked against the key it sits under. The key settles
/// the name that ships upstream when the entry does not state it.
pub fn build(key: &str, provider: &str, entry: &ModelEntry) -> (r: Result<ModelSpec, String>)
    ensures
        match model_key_problem(key@, provider@) {
            Some(e) => r matches Err(m) && m@ == e,
            None => r matches Ok(spec) && spec@ == model_row(key@, provider@, entry@),
        },
{
    validate_model(key, provider)?;
    let model = match &entry.model {
        Some(m) => m.clone(),
        None => string_of(&last_segment_exec(&chars_of(key))),
    };
    Ok(ModelSpec { provider: crate::text::owned(provider), model, capabilities: entry.capabilities })
}

proof fn lemma_file_models_err(
    ms: Seq<(Seq<char>, ModelView)>,
    provider: Seq<char>,
    entries: Seq<(Seq<char>, ModelEntryView)>,
    n: nat,
    m: nat,
)
    requires
        n <= m,
        file_models(ms, provider, entries, n) is Err,
    ensures
        file_models(ms, provider, entries, m) == file_models(ms, provider, entries, n),
    decreases m - n,
{
    if n < m {
        lemma_file_models_err(ms, provider, entries, n, (m - 1) as nat);
    }
}

proof fn lemma_load_err(file: RosterView, n: nat, m: nat)
    requires
        n <= m,
        load_upto(file, n) is Err,
    ensures
        load_upto(file, m) == load_upto(file, n),
    decreases m - n,
{
    if n < m {
        lemma_load_err(file, n, (m - 1) as nat);
    }
}

fn holds_key_exec(ms: &Vec<(String, ModelSpec)>, key: &str) -> (r: bool)
    ensures
        r == holds_key(ms@.map_values(|e: (String, ModelSpec)| (e.0@, e.1@)), key@),
{
    let ghost v = ms@.map_values(|e: (String, ModelSpec)| (e.0@, e.1@));
    let mut i: usize = 0;
    while i < ms.len()
        invariant
            i <= ms.len(),
            v == ms@.map_values(|e: (String, ModelSpec)| (e.0@, e.1@)),
            forall|j: int| 0 <= j < i ==> v[j].0 != key@,
        decreases ms.len() - i,
    {
        if crate::text::text_eq(ms[i].0.as_str(), key) {
            assert(v[i as int].0 == key@);
            return true;
        }
        i = i + 1;
    }
    false
}

fn holds_provider_exec(ps: &Vec<ProviderSpec>, name: &str) -> (r: bool)
    ensures
        r == holds_provider(ps@.map_values(|p: ProviderSpec| p@), name@),
{
    let ghost v = ps@.map_values(|p: ProviderSpec| p@);
    let mut i: usize = 0;
    while i < ps.len()
        invariant
            i <= ps.len(),
            v == ps@.map_values(|p: ProviderSpec| p@),
            forall|j: int| 0 <= j < i ==> v[j].name != name@,
        decreases ps.len() - i,
    {
        if crate::text::text_eq(ps[i].name.as_str(), name) {
            assert(v[i as int].name == name@);
            return true;
        }
        i = i + 1;
    }
    false
}

/// Reads a roster into the provider and model tables. `Err` carries the
/// message a contributor sees.
pub fn load_file(file: &RosterFile) -> (r: Result<Registry, String>)
    ensures
        match load_roster(file@) {
            Ok(v) => r matches Ok(reg) && reg@ == v,
            Err(e) => r matches Err(m) && m@ == e,
        },
{
    let mut reg = Registry { providers: Vec::new(), models: Vec::new() };
    assert(reg@.providers =~= Seq::<ProviderView>::empty());
    assert(reg@.models =~= Seq::<(Seq<char>, ModelView)>::empty());
    let mut i: usize = 0;
    while i < file.providers.len()
        invariant
            i <= file.providers.len(),
            load_upto(file@, i as nat) == Ok::<RegistryView, Seq<char>>(reg@),
        decreases file.providers.len() - i,
    {
        let name = file.providers[i].0.as_str();
        let entry = &file.providers[i].1;
        assert(file@.providers[i as int] == (name@, entry@));
        match validate_provider(name) {
            Err(m) => {
                proof {
                    lemma_load_err(file@, (i + 1) as nat, file@.providers.len());
                }
                return Err(m);
            },
            Ok(()) => {},
        }
        if holds_provider_exec(&reg.providers, name) {
            proof {
                lemma_load_err(file@, (i + 1) as nat, file@.providers.len());
            }
            let mut m = crate::text::owned("duplicate entry with key ");
            m.append(ticked_exec(name).as_str());
            return Err(m);
        }
        let ghost before = reg@;
        let ghost entries = entry@.models;
        let empty: Vec<(String, ModelEntry)> = Vec::new();
        let models: &Vec<(String, ModelEntry)> = match &entry.models {
            Some(ms) => ms,
            None => &empty,
        };
        assert(models@.map_values(|e: (String, ModelEntry)| (e.0@, e.1@)) =~= entries);
        let mut j: usize = 0;
        while j < models.len()
            invariant
                j <= models.len(),
                models@.map_values(|e: (String, ModelEntry)| (e.0@, e.1@)) == entries,
                reg@.providers == before.providers,
                i < file.providers.len(),
                load_upto(file@, i as nat) == Ok::<RegistryView, Seq<char>>(before),
                file@.providers[i as int] == (name@, entry@),
                entries == entry@.models,
                provider_name_problem(name@) is None,
                !holds_provider(before.providers, name@),
                file_models(before.models, name@, entries, j as nat) == Ok::<
                    Seq<(Seq<char>, ModelView)>,
                    Seq<char>,
                >(reg@.models),
            decreases models.len() - j,
        {
            let key = models[j].0.as_str();
            assert(entries[j as int] == (key@, models[j as int].1@));
            match build(key, name, &models[j].1) {
                Err(e) => {
                    proof {
                        lemma_file_models_err(
                            before.models,
                            name@,
                            entries,
                            (j + 1) as nat,
                            entries.len(),
                        );
                        lemma_load_err(file@, (i + 1) as nat, file@.providers.len());
                    }
                    let mut m = ticked_exec(key);
                    m.append(": ");
                    m.append(e.as_str());
                    return Err(m);
                },
                Ok(spec) => {
                    if holds_key_exec(&reg.models, key) {
                        proof {
                            lemma_file_models_err(
                                before.models,
                                name@,
                                entries,
                                (j + 1) as nat,
                                entries.len(),
                            );
                            lemma_load_err(file@, (i + 1) as nat, file@.providers.len());
                        }
                        let mut m = crate::text::owned("duplicate entry with key ");
                        m.append(ticked_exec(key).as_str());
                        return Err(m);
                    }
                    let ghost prev = reg.models@;
                    reg.models.push((crate::text::owned(key), spec));
                    proof {
                        assert(reg.models@.map_values(|e: (String, ModelSpec)| (e.0@, e.1@))
                            =~= prev.map_values(|e: (String, ModelSpec)| (e.0@, e.1@)).push(
                            (key@, model_row(key@, name@, models[j as int].1@)),
                        ));
                    }
                },
            }
            j = j + 1;
        }
        let ghost prevp = reg.providers@;
        reg.providers.push(
            ProviderSpec {
                name: crate::text::owned(name),
                base_url: entry.base_url.clone(),
                env_api_key: copy_opt(&entry.env_api_key),
                protocol: entry.protocol,
                supported_apis: copy_apis(&entry.supported_apis),
            },
        );
        proof {
            assert(reg.providers@.map_values(|p: ProviderSpec| p@) =~= prevp.map_values(
                |p: ProviderSpec| p@,
            ).push(provider_row(name@, entry@)));
        }
        i = i + 1;
    }
    Ok(reg)
}

/// The roster a document spells: parsed, then read against the schema.
pub open spec fn roster_of(node: Result<YamlNode, Seq<char>>) -> Result<RosterView, Seq<char>> {
    match node {
        Err(e) => Err(e),
        Ok(n) => decode_roster(n),
    }
}

/// The tables a roster document loads into, or the first problem with it.
pub open spec fn load_text(text: Seq<char>) -> Result<RegistryView, Seq<char>> {
    match roster_of(yaml_document(text)) {
        Err(e) => Err(e),
        Ok(f) => load_roster(f),
    }
}

/// Reads an already parsed roster into the provider and model tables.
pub fn load_node(node: &YamlNode) -> (r: Result<Registry, String>)
    ensures
        match roster_of(Ok(*node)) {
            Err(e) => r matches Err(m) && m@ == e,
            Ok(f) => match load_roster(f) {
                Ok(v) => r matches Ok(reg) && reg@ == v,
                Err(e) => r matches Err(m) && m@ == e,
            },
        },
{
    match decode(node) {
        Err(e) => Err(e),
        Ok(file) => load_file(&file),
    }
}

/// Reads a roster document into the provider and model tables. `Err` carries
/// the message a contributor sees: the parser's, the schema's, or the first
/// key that cannot be filed.
pub fn load(yaml: &str) -> (r: Result<Registry, String>)
    ensures
        match load_text(yaml@) {
            Ok(v) => r matches Ok(reg) && reg@ == v,
            Err(e) => r matches Err(m) && m@ == e,
        },
{
    match parse_yaml(yaml) {
        Err(e) => Err(e),
        Ok(node) => load_node(&node),
    }
}

/// A provider is found by name exactly when the table holds one by that name.
pub proof fn lemma_find_provider(ps: Seq<ProviderView>, name: Seq<char>)
    ensures
        find_provider(ps, name) is Some <==> holds_provider(ps, name),
        find_provider(ps, name) matches Some(p) ==> p.name == name,
    decreases ps.len(),
{
    if ps.len() > 0 {
        lemma_find_provider(ps.drop_first(), name);
        if holds_provider(ps, name) && ps[0].name != name {
            let i = choose|i: int| 0 <= i < ps.len() && ps[i].name == name;
            assert(ps.drop_first()[i - 1].name == name);
        }
        if holds_provider(ps.drop_first(), name) {
            let i = choose|i: int| 0 <= i < ps.drop_first().len() && ps.drop_first()[i].name == name;
            assert(ps[i + 1].name == name);
        }
    }
}

proof fn lemma_file_models_shape(
    ms: Seq<(Seq<char>, ModelView)>,
    provider: Seq<char>,
    entries: Seq<(Seq<char>, ModelEntryView)>,
    n: nat,
)
    requires
        n <= entries.len(),
        file_models(ms, provider, entries, n) is Ok,
        forall|i: int, j: int| 0 <= i < j < ms.len() ==> ms[i].0 != ms[j].0,
    ensures
        ({
            let out = file_models(ms, provider, entries, n)->Ok_0;
            &&& out.len() >= ms.len()
            &&& out.take(ms.len() as int) == ms
            &&& forall|i: int, j: int| 0 <= i < j < out.len() ==> out[i].0 != out[j].0
            &&& forall|i: int|
                ms.len() <= i < out.len() ==> out[i].1.provider == provider && key_under(
                    out[i].0,
                    provider,
                )
        }),
    decreases n,
{
    if n == 0 {
        assert(ms.take(ms.len() as int) =~= ms);
    } else {
        lemma_file_models_shape(ms, provider, entries, (n - 1) as nat);
        let acc = file_models(ms, provider, entries, (n - 1) as nat)->Ok_0;
        let (key, entry) = entries[n - 1];
        let out = acc.push((key, model_row(key, provider, entry)));
        assert(out.take(ms.len() as int) =~= acc.take(ms.len() as int));
        assert forall|i: int, j: int| 0 <= i < j < out.len() implies out[i].0 != out[j].0 by {
            if j == out.len() - 1 {
                assert(!holds_key(acc, key));
                assert(acc[i].0 != key);
            }
        }
    }
}

/// Every registry a roster loads into has distinct provider names, distinct
/// model keys, and each model filed under a provider the table holds.
pub proof fn law_loaded_registry_is_wf(file: RosterView)
    ensures
        load_roster(file) matches Ok(r) ==> r.wf(),
{
    lemma_load_upto_wf(file, file.providers.len());
}

proof fn lemma_load_upto_wf(file: RosterView, n: nat)
    requires
        n <= file.providers.len(),
    ensures
        load_upto(file, n) matches Ok(r) ==> r.wf(),
    decreases n,
{
    if n > 0 {
        lemma_load_upto_wf(file, (n - 1) as nat);
        if let Ok(reg) = load_upto(file, (n - 1) as nat) {
            let (name, entry) = file.providers[n - 1];
            if provider_name_problem(name) is None && !holds_provider(reg.providers, name) {
                if file_models(reg.models, name, entry.models, entry.models.len()) is Ok {
                    lemma_file_models_shape(reg.models, name, entry.models, entry.models.len());
                    let ms = file_models(reg.models, name, entry.models, entry.models.len())->Ok_0;
                    let ps = reg.providers.push(provider_row(name, entry));
                    let r = RegistryView { providers: ps, models: ms };
                    assert forall|i: int, j: int|
                        0 <= i < j < ps.len() implies ps[i].name != ps[j].name by {
                        if j == ps.len() - 1 {
                            assert(reg.providers[i].name != name);
                        }
                    }
                    assert forall|i: int| 0 <= i < ms.len() implies {
                        &&& find_provider(ps, ms[i].1.provider) is Some
                        &&& key_under(ms[i].0, ms[i].1.provider)
                    } by {
                        lemma_find_provider(ps, ms[i].1.provider);
                        if i < reg.models.len() {
                            assert(ms[i] == ms.take(reg.models.len() as int)[i]);
                            lemma_find_provider(reg.providers, ms[i].1.provider);
                            let k = choose|k: int|
                                0 <= k < reg.providers.len() && reg.providers[k].name == ms[i].1.provider;
                            assert(ps[k].name == ms[i].1.provider);
                        } else {
                            assert(ps[ps.len() - 1].name == name);
                        }
                    }
                }
            }
        }
    }
}

/// Whether the roster holds, under the provider `m` names, an entry at `key`
/// that becomes the row `m`.
pub open spec fn filed_from(file: RosterView, key: Seq<char>, m: ModelView) -> bool {
    exists|i: int, j: int|
        0 <= i < file.providers.len() && 0 <= j < file.providers[i].1.models.len()
            && file.providers[i].0 == m.provider && #[trigger] file.providers[i].1.models[j].0 == key
            && m == model_row(key, m.provider, file.providers[i].1.models[j].1)
}

proof fn lemma_file_models_rows(
    ms: Seq<(Seq<char>, ModelView)>,
    provider: Seq<char>,
    entries: Seq<(Seq<char>, ModelEntryView)>,
    n: nat,
)
    requires
        n <= entries.len(),
        file_models(ms, provider, entries, n) is Ok,
    ensures
        ({
            let out = file_models(ms, provider, entries, n)->Ok_0;
            &&& out.len() >= ms.len()
            &&& forall|i: int| 0 <= i < ms.len() ==> out[i] == ms[i]
            &&& forall|i: int|
                ms.len() <= i < out.len() ==> {
                    &&& model_key_problem(out[i].0, provider) is None
                    &&& out[i].1.provider == provider
                    &&& exists|j: int|
                        0 <= j < n && #[trigger] entries[j].0 == out[i].0 && out[i].1 == model_row(
                            out[i].0,
                            provider,
                            entries[j].1,
                        )
                }
        }),
    decreases n,
{
    if n > 0 {
        lemma_file_models_rows(ms, provider, entries, (n - 1) as nat);
        let acc = file_models(ms, provider, entries, (n - 1) as nat)->Ok_0;
        let (key, entry) = entries[n - 1];
        let out = acc.push((key, model_row(key, provider, entry)));
        assert forall|i: int| ms.len() <= i < out.len() implies {
            &&& model_key_problem(out[i].0, provider) is None
            &&& out[i].1.provider == provider
            &&& exists|j: int|
                0 <= j < n && #[trigger] entries[j].0 == out[i].0 && out[i].1 == model_row(
                    out[i].0,
                    provider,
                    entries[j].1,
                )
        } by {
            if i == out.len() - 1 {
                assert(entries[n - 1].0 == out[i].0);
            } else {
                assert(out[i] == acc[i]);
                let j = choose|j: int|
                    0 <= j < n - 1 && #[trigger] entries[j].0 == acc[i].0 && acc[i].1 == model_row(
                        acc[i].0,
                        provider,
                        entries[j].1,
                    );
                assert(entries[j].0 == out[i].0);
            }
        }
    }
}

proof fn lemma_load_upto_rows(file: RosterView, n: nat)
    requires
        n <= file.providers.len(),
    ensures
        load_upto(file, n) matches Ok(r) ==> {
            &&& forall|i: int| 0 <= i < r.providers.len() ==> provider_name_problem(#[trigger] r.providers[i].name) is None
            &&& forall|i: int|
                0 <= i < r.models.len() ==> model_key_problem(#[trigger] r.models[i].0, r.models[i].1.provider) is None
                    && filed_from(file, r.models[i].0, r.models[i].1)
        },
    decreases n,
{
    if n > 0 {
        lemma_load_upto_rows(file, (n - 1) as nat);
        if let Ok(reg) = load_upto(file, (n - 1) as nat) {
            let (name, entry) = file.providers[n - 1];
            if provider_name_problem(name) is None && !holds_provider(reg.providers, name) {
                if file_models(reg.models, name, entry.models, entry.models.len()) is Ok {
                    lemma_file_models_rows(reg.models, name, entry.models, entry.models.len());
                    let ms = file_models(reg.models, name, entry.models, entry.models.len())->Ok_0;
                    let ps = reg.providers.push(provider_row(name, entry));
                    assert forall|i: int| 0 <= i < ps.len() implies provider_name_problem(#[trigger] ps[i].name) is None by {
                        if i < reg.providers.len() {
                            assert(ps[i] == reg.providers[i]);
                        }
                    }
                    assert forall|i: int| 0 <= i < ms.len() implies model_key_problem(#[trigger] ms[i].0, ms[i].1.provider) is None
                        && filed_from(file, ms[i].0, ms[i].1) by {
                        if i < reg.models.len() {
                            assert(ms[i] == reg.models[i]);
                        } else {
                            let j = choose|j: int|
                                0 <= j < entry.models.len() && #[trigger] entry.models[j].0 == ms[i].0 && ms[i].1
                                    == model_row(ms[i].0, name, entry.models[j].1);
                            assert(file.providers[n - 1].1.models[j].0 == ms[i].0);
                        }
                    }
                }
            }
        }
    }
}

/// Every row a roster loads into comes from the roster as written: each
/// provider name is one non-empty segment without `/`; each model key lies
/// under its provider's name with no empty path segment after it; and each
/// model row is the roster's entry at that key under that provider, its
/// model name the entry's explicit `model:` or else the key's last segment.
pub proof fn law_loaded_rows_follow_the_roster(file: RosterView)
    ensures
        load_roster(file) matches Ok(r) ==> {
            &&& forall|i: int| 0 <= i < r.providers.len() ==> provider_name_problem(#[trigger] r.providers[i].name) is None
            &&& forall|i: int|
                0 <= i < r.models.len() ==> model_key_problem(#[trigger] r.models[i].0, r.models[i].1.provider) is None
                    && filed_from(file, r.models[i].0, r.models[i].1)
        },
{
    lemma_load_upto_rows(file, file.providers.len());
}

} // verus!
