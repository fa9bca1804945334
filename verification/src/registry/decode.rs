//! Reading the roster's YAML tree into a [`RosterFile`]: which keys each level
//! may hold, which it must, and what type each value has.
//!
//! Every level is closed: a key the schema does not name is an error, so a
//! misspelled field fails to load instead of being silently ignored. Problems
//! are met as a typed read meets them: each level's keys in document order,
//! every value checked where it stands (nested levels included), and a
//! required field that is missing only once its whole level has been read.
//! The first problem met is the one reported, prefixed with the path of the
//! value it is about.

use vstd::prelude::*;
use vstd::string::StrSliceExecFns;

use crate::registry::load::{
    ticked, ModelEntry, ModelEntryView, ProviderEntry, ProviderEntryView, RosterFile, RosterView,
};
use crate::registry::types::{opt_view, Capabilities, CapabilitiesView};
use crate::text::{join2, owned, text_eq};
use crate::types::{api_named, protocol_named, Api, Protocol};
use crate::yaml::YamlNode;

verus! {

broadcast use crate::registry::types::group_registry_views;

/// The string a node holds, when it is a string.
pub open spec fn node_text(n: YamlNode) -> Option<Seq<char>> {
    match n {
        YamlNode::Str(s) => Some(s@),
        _ => None,
    }
}

/// The entries of a mapping node; an empty value reads as an empty mapping.
pub open spec fn entries_of(n: YamlNode) -> Option<Seq<(YamlNode, YamlNode)>> {
    match n {
        YamlNode::Mapping(es) => Some(es@),
        YamlNode::Null => Some(Seq::empty()),
        _ => None,
    }
}

/// `msg`, said about the value at `path`.
pub open spec fn at(path: Seq<char>, msg: Seq<char>) -> Seq<char> {
    if path.len() == 0 {
        msg
    } else {
        path + ": "@ + msg
    }
}

/// The path of field `name` under `path`.
pub open spec fn under(path: Seq<char>, name: Seq<char>) -> Seq<char> {
    path + "."@ + name
}

/// Whether a string key equal to `k` occurs among the first `i` entries.
pub open spec fn earlier_key(es: Seq<(YamlNode, YamlNode)>, i: int, k: Seq<char>) -> bool {
    exists|j: int| 0 <= j < i && #[trigger] node_text(es[j].0) == Some(k)
}

/// What is wrong with the key of entry `i` at level `l`, if anything: a key
/// that is not a string, one the level does not name, or one given twice.
pub open spec fn key_issue(l: Level, path: Seq<char>, es: Seq<(YamlNode, YamlNode)>, i: int) -> Option<Seq<char>> {
    match node_text(es[i].0) {
        None => Some(at(path, "invalid type: a key that is not a string"@)),
        Some(k) => if !level_names(l).contains(k) {
            Some(at(path, "unknown field "@ + ticked(k) + ", expected "@ + level_expected(l)))
        } else if earlier_key(es, i, k) {
            Some(at(path, "duplicate field "@ + ticked(k)))
        } else {
            None
        },
    }
}

/// The error of a decoding, if it failed.
pub open spec fn err_of<T>(r: Result<T, Seq<char>>) -> Option<Seq<char>> {
    match r {
        Err(e) => Some(e),
        Ok(_) => None,
    }
}

/// The value of the first entry `i..` whose key is `name`.
pub open spec fn field_from(es: Seq<(YamlNode, YamlNode)>, name: Seq<char>, i: int) -> Option<YamlNode>
    decreases es.len() - i,
{
    if i < 0 || i >= es.len() {
        None
    } else if node_text(es[i].0) == Some(name) {
        Some(es[i].1)
    } else {
        field_from(es, name, i + 1)
    }
}

pub open spec fn field(es: Seq<(YamlNode, YamlNode)>, name: Seq<char>) -> Option<YamlNode> {
    field_from(es, name, 0)
}

pub open spec fn missing(path: Seq<char>, name: Seq<char>) -> Seq<char> {
    at(path, "missing field "@ + ticked(name))
}

/// A string the schema requires.
pub open spec fn required_text(path: Seq<char>, es: Seq<(YamlNode, YamlNode)>, name: Seq<char>) -> Result<Seq<char>, Seq<char>> {
    match field(es, name) {
        None => Err(missing(path, name)),
        Some(YamlNode::Str(s)) => Ok(s@),
        Some(_) => Err(at(under(path, name), "invalid type: expected a string"@)),
    }
}

/// A string the schema allows to be left out.
pub open spec fn optional_text(path: Seq<char>, es: Seq<(YamlNode, YamlNode)>, name: Seq<char>) -> Result<Option<Seq<char>>, Seq<char>> {
    match field(es, name) {
        None => Ok(None),
        Some(YamlNode::Null) => Ok(None),
        Some(YamlNode::Str(s)) => Ok(Some(s@)),
        Some(_) => Err(at(under(path, name), "invalid type: expected a string"@)),
    }
}

pub open spec fn protocol_field(path: Seq<char>, es: Seq<(YamlNode, YamlNode)>) -> Result<Protocol, Seq<char>> {
    match required_text(path, es, "protocol"@) {
        Err(e) => Err(e),
        Ok(t) => match protocol_named(t) {
            Some(p) => Ok(p),
            None => Err(at(under(path, "protocol"@), "unknown variant "@ + ticked(t)
                + ", expected `openai_compat`"@)),
        },
    }
}

pub open spec fn api_problem(t: Seq<char>) -> Seq<char> {
    "unknown variant "@ + ticked(t)
        + ", expected one of `chat_completions`, `chat_completions_stream`, `responses`"@
}

/// The first `n` surfaces of a `supported_apis` list.
pub open spec fn decode_apis(path: Seq<char>, items: Seq<YamlNode>, n: nat) -> Result<Seq<Api>, Seq<char>>
    decreases n,
{
    if n == 0 {
        Ok(Seq::empty())
    } else {
        match decode_apis(path, items, (n - 1) as nat) {
            Err(e) => Err(e),
            Ok(acc) => match node_text(items[n - 1]) {
                None => Err(at(path, "invalid type: expected a string"@)),
                Some(t) => match api_named(t) {
                    None => Err(at(path, api_problem(t))),
                    Some(a) => Ok(acc.push(a)),
                },
            },
        }
    }
}

pub open spec fn apis_field(path: Seq<char>, es: Seq<(YamlNode, YamlNode)>) -> Result<Seq<Api>, Seq<char>> {
    match field(es, "supported_apis"@) {
        None => Err(missing(path, "supported_apis"@)),
        Some(YamlNode::Null) => Ok(Seq::empty()),
        Some(YamlNode::List(items)) => decode_apis(under(path, "supported_apis"@), items@, items@.len()),
        Some(_) => Err(at(under(path, "supported_apis"@), "invalid type: expected a sequence"@)),
    }
}

/// A `u32` limit the schema allows to be left out.
pub open spec fn limit_field(path: Seq<char>, es: Seq<(YamlNode, YamlNode)>, name: Seq<char>) -> Result<Option<u32>, Seq<char>> {
    match field(es, name) {
        None => Ok(None),
        Some(YamlNode::Null) => Ok(None),
        Some(YamlNode::Number(Some(n), text)) => if n <= u32::MAX {
            Ok(Some(n as u32))
        } else {
            Err(at(under(path, name), "invalid value: "@ + text@ + ", expected a u32"@))
        },
        Some(YamlNode::Number(None, text)) => Err(at(under(path, name), "invalid value: "@ + text@
            + ", expected a u32"@)),
        Some(_) => Err(at(under(path, name), "invalid type: expected a u32"@)),
    }
}

pub open spec fn capability_names() -> Seq<Seq<char>> {
    seq!["max_input_tokens"@, "max_output_tokens"@, "max_concurrent_requests"@]
}

pub open spec fn capability_expected() -> Seq<char> {
    "one of `max_input_tokens`, `max_output_tokens`, `max_concurrent_requests`"@
}

pub open spec fn decode_capabilities(path: Seq<char>, node: Option<YamlNode>) -> Result<CapabilitiesView, Seq<char>> {
    match node {
        None => Ok(CapabilitiesView { max_input_tokens: None, max_output_tokens: None, max_concurrent_requests: None }),
        Some(n) => match entries_of(n) {
            None => Err(at(path, "invalid type: expected a mapping"@)),
            Some(es) => match limits_problem(path, es, 0) {
                Some(e) => Err(e),
                None => match limit_field(path, es, "max_input_tokens"@) {
                    Err(e) => Err(e),
                    Ok(a) => match limit_field(path, es, "max_output_tokens"@) {
                        Err(e) => Err(e),
                        Ok(b) => match limit_field(path, es, "max_concurrent_requests"@) {
                            Err(e) => Err(e),
                            Ok(c) => Ok(CapabilitiesView { max_input_tokens: a, max_output_tokens: b, max_concurrent_requests: c }),
                        },
                    },
                },
            },
        },
    }
}

/// The first problem, in document order from entry `i`, with a capability
/// block's keys and values.
pub open spec fn limits_problem(path: Seq<char>, es: Seq<(YamlNode, YamlNode)>, i: int) -> Option<Seq<char>>
    decreases es.len() - i,
{
    if i < 0 || i >= es.len() {
        None
    } else {
        match key_issue(Level::Limits, path, es, i) {
            Some(e) => Some(e),
            None => match err_of(limit_field(path, es, node_text(es[i].0)->Some_0)) {
                Some(e) => Some(e),
                None => limits_problem(path, es, i + 1),
            },
        }
    }
}

pub open spec fn model_names() -> Seq<Seq<char>> {
    seq!["model"@, "capabilities"@]
}

/// The first problem, in document order from entry `i`, with a model entry's
/// keys and values.
pub open spec fn model_problem(path: Seq<char>, es: Seq<(YamlNode, YamlNode)>, i: int) -> Option<Seq<char>>
    decreases es.len() - i,
{
    if i < 0 || i >= es.len() {
        None
    } else {
        match key_issue(Level::Model, path, es, i) {
            Some(e) => Some(e),
            None => match (if node_text(es[i].0) == Some("model"@) {
                err_of(optional_text(path, es, "model"@))
            } else {
                err_of(decode_capabilities(under(path, "capabilities"@), field(es, "capabilities"@)))
            }) {
                Some(e) => Some(e),
                None => model_problem(path, es, i + 1),
            },
        }
    }
}

pub open spec fn decode_model(path: Seq<char>, node: YamlNode) -> Result<ModelEntryView, Seq<char>> {
    match entries_of(node) {
        None => Err(at(path, "invalid type: expected a mapping"@)),
        Some(es) => match model_problem(path, es, 0) {
            Some(e) => Err(e),
            None => match optional_text(path, es, "model"@) {
                Err(e) => Err(e),
                Ok(m) => match decode_capabilities(under(path, "capabilities"@), field(es, "capabilities"@)) {
                    Err(e) => Err(e),
                    Ok(c) => Ok(ModelEntryView { model: m, capabilities: c }),
                },
            },
        },
    }
}

/// The first `n` entries of a `models` mapping.
pub open spec fn decode_models_upto(path: Seq<char>, es: Seq<(YamlNode, YamlNode)>, n: nat) -> Result<Seq<(Seq<char>, ModelEntryView)>, Seq<char>>
    decreases n,
{
    if n == 0 {
        Ok(Seq::empty())
    } else {
        match decode_models_upto(path, es, (n - 1) as nat) {
            Err(e) => Err(e),
            Ok(acc) => match node_text(es[n - 1].0) {
                None => Err(at(path, "invalid type: a model key that is not a string"@)),
                Some(k) => match decode_model(under(path, k), es[n - 1].1) {
                    Err(e) => Err(e),
                    Ok(m) => Ok(acc.push((k, m))),
                },
            },
        }
    }
}

pub open spec fn models_field(path: Seq<char>, es: Seq<(YamlNode, YamlNode)>) -> Result<Seq<(Seq<char>, ModelEntryView)>, Seq<char>> {
    match field(es, "models"@) {
        None => Ok(Seq::empty()),
        Some(YamlNode::Null) => Ok(Seq::empty()),
        Some(YamlNode::Mapping(ms)) => decode_models_upto(under(path, "models"@), ms@, ms@.len()),
        Some(_) => Err(at(under(path, "models"@), "invalid type: expected a mapping"@)),
    }
}

pub open spec fn provider_names() -> Seq<Seq<char>> {
    seq!["base_url"@, "env_api_key"@, "protocol"@, "supported_apis"@, "models"@]
}

pub open spec fn provider_expected() -> Seq<char> {
    "one of `base_url`, `env_api_key`, `protocol`, `supported_apis`, `models`"@
}

/// What decoding the value of a provider's field `k` fails with, if it does.
pub open spec fn provider_field_problem(path: Seq<char>, es: Seq<(YamlNode, YamlNode)>, k: Seq<char>) -> Option<Seq<char>> {
    if k == "base_url"@ {
        err_of(required_text(path, es, "base_url"@))
    } else if k == "env_api_key"@ {
        err_of(optional_text(path, es, "env_api_key"@))
    } else if k == "protocol"@ {
        err_of(protocol_field(path, es))
    } else if k == "supported_apis"@ {
        err_of(apis_field(path, es))
    } else {
        err_of(models_field(path, es))
    }
}

/// The first problem, in document order from entry `i`, with a provider
/// entry's keys and values. A missing field is not among them: like serde, the
/// reader looks for those once every entry is read.
pub open spec fn provider_problem(path: Seq<char>, es: Seq<(YamlNode, YamlNode)>, i: int) -> Option<Seq<char>>
    decreases es.len() - i,
{
    if i < 0 || i >= es.len() {
        None
    } else {
        match key_issue(Level::Provider, path, es, i) {
            Some(e) => Some(e),
            None => match provider_field_problem(path, es, node_text(es[i].0)->Some_0) {
                Some(e) => Some(e),
                None => provider_problem(path, es, i + 1),
            },
        }
    }
}

pub open spec fn decode_provider(path: Seq<char>, node: YamlNode) -> Result<ProviderEntryView, Seq<char>> {
    match entries_of(node) {
        None => Err(at(path, "invalid type: expected a mapping"@)),
        Some(es) => match provider_problem(path, es, 0) {
            Some(e) => Err(e),
            None => match required_text(path, es, "base_url"@) {
                Err(e) => Err(e),
                Ok(base_url) => match optional_text(path, es, "env_api_key"@) {
                    Err(e) => Err(e),
                    Ok(env_api_key) => match protocol_field(path, es) {
                        Err(e) => Err(e),
                        Ok(protocol) => match apis_field(path, es) {
                            Err(e) => Err(e),
                            Ok(supported_apis) => match models_field(path, es) {
                                Err(e) => Err(e),
                                Ok(models) => Ok(ProviderEntryView {
                                    base_url,
                                    env_api_key,
                                    protocol,
                                    supported_apis,
                                    models,
                                }),
                            },
                        },
                    },
                },
            },
        },
    }
}

/// The first `n` entries of the `providers` mapping.
pub open spec fn decode_providers_upto(es: Seq<(YamlNode, YamlNode)>, n: nat) -> Result<Seq<(Seq<char>, ProviderEntryView)>, Seq<char>>
    decreases n,
{
    if n == 0 {
        Ok(Seq::empty())
    } else {
        match decode_providers_upto(es, (n - 1) as nat) {
            Err(e) => Err(e),
            Ok(acc) => match node_text(es[n - 1].0) {
                None => Err(at("providers"@, "invalid type: a provider name that is not a string"@)),
                Some(k) => match decode_provider(under("providers"@, k), es[n - 1].1) {
                    Err(e) => Err(e),
                    Ok(p) => Ok(acc.push((k, p))),
                },
            },
        }
    }
}

/// The `providers` field of the root mapping, decoded.
pub open spec fn providers_field(es: Seq<(YamlNode, YamlNode)>) -> Result<Seq<(Seq<char>, ProviderEntryView)>, Seq<char>> {
    match field(es, "providers"@) {
        None => Err("missing field `providers`"@),
        Some(p) => match entries_of(p) {
            None => Err(at("providers"@, "invalid type: expected a mapping"@)),
            Some(pes) => decode_providers_upto(pes, pes.len()),
        },
    }
}

/// The first problem, in document order from entry `i`, with the root
/// mapping's keys and values.
pub open spec fn root_problem(es: Seq<(YamlNode, YamlNode)>, i: int) -> Option<Seq<char>>
    decreases es.len() - i,
{
    if i < 0 || i >= es.len() {
        None
    } else {
        match key_issue(Level::Root, Seq::empty(), es, i) {
            Some(e) => Some(e),
            None => match err_of(providers_field(es)) {
                Some(e) => Some(e),
                None => root_problem(es, i + 1),
            },
        }
    }
}

/// The roster a YAML tree spells, or the first problem with it.
pub open spec fn decode_roster(node: YamlNode) -> Result<RosterView, Seq<char>> {
    match entries_of(node) {
        None => Err("invalid type: expected a mapping"@),
        Some(es) => match root_problem(es, 0) {
            Some(e) => Err(e),
            None => match providers_field(es) {
                Err(e) => Err(e),
                Ok(ps) => Ok(RosterView { providers: ps }),
            },
        },
    }
}

/// Which level of the roster a mapping sits at: each names its own fields.
#[derive(Clone, Copy, PartialEq, Eq, Structural)]
pub enum Level {
    Root,
    Provider,
    Model,
    Limits,
}

pub open spec fn level_names(l: Level) -> Seq<Seq<char>> {
    match l {
        Level::Root => seq!["providers"@],
        Level::Provider => provider_names(),
        Level::Model => model_names(),
        Level::Limits => capability_names(),
    }
}

pub open spec fn level_expected(l: Level) -> Seq<char> {
    match l {
        Level::Root => "`providers`"@,
        Level::Provider => provider_expected(),
        Level::Model => "`model` or `capabilities`"@,
        Level::Limits => capability_expected(),
    }
}

fn level_has(l: Level, k: &str) -> (r: bool)
    ensures
        r == level_names(l).contains(k@),
{
    match l {
        Level::Root => {
            let r = text_eq(k, "providers");
            proof {
                let ns = level_names(l);
                if r {
                    assert(ns[0] == k@);
                }
                if ns.contains(k@) {
                    let i = choose|i: int| 0 <= i < ns.len() && ns[i] == k@;
                    assert(i == 0);
                }
            }
            r
        },
        Level::Provider => {
            let r = text_eq(k, "base_url") || text_eq(k, "env_api_key") || text_eq(k, "protocol")
                || text_eq(k, "supported_apis") || text_eq(k, "models");
            proof {
                let ns = level_names(l);
                if k@ == "base_url"@ { assert(ns[0] == k@); }
                if k@ == "env_api_key"@ { assert(ns[1] == k@); }
                if k@ == "protocol"@ { assert(ns[2] == k@); }
                if k@ == "supported_apis"@ { assert(ns[3] == k@); }
                if k@ == "models"@ { assert(ns[4] == k@); }
                if ns.contains(k@) {
                    let i = choose|i: int| 0 <= i < ns.len() && ns[i] == k@;
                    assert(0 <= i < 5);
                }
            }
            r
        },
        Level::Model => {
            let r = text_eq(k, "model") || text_eq(k, "capabilities");
            proof {
                let ns = level_names(l);
                if k@ == "model"@ { assert(ns[0] == k@); }
                if k@ == "capabilities"@ { assert(ns[1] == k@); }
                if ns.contains(k@) {
                    let i = choose|i: int| 0 <= i < ns.len() && ns[i] == k@;
                    assert(0 <= i < 2);
                }
            }
            r
        },
        Level::Limits => {
            let r = text_eq(k, "max_input_tokens") || text_eq(k, "max_output_tokens") || text_eq(
                k,
                "max_concurrent_requests",
            );
            proof {
                let ns = level_names(l);
                if k@ == "max_input_tokens"@ { assert(ns[0] == k@); }
                if k@ == "max_output_tokens"@ { assert(ns[1] == k@); }
                if k@ == "max_concurrent_requests"@ { assert(ns[2] == k@); }
                if ns.contains(k@) {
                    let i = choose|i: int| 0 <= i < ns.len() && ns[i] == k@;
                    assert(0 <= i < 3);
                }
            }
            r
        },
    }
}

fn level_expected_exec(l: Level) -> (r: &'static str)
    ensures
        r@ == level_expected(l),
{
    match l {
        Level::Root => "`providers`",
        Level::Provider => "one of `base_url`, `env_api_key`, `protocol`, `supported_apis`, `models`",
        Level::Model => "`model` or `capabilities`",
        Level::Limits => "one of `max_input_tokens`, `max_output_tokens`, `max_concurrent_requests`",
    }
}

fn text_of(n: &YamlNode) -> (r: Option<&str>)
    ensures
        r is Some == node_text(*n) is Some,
        r matches Some(t) ==> node_text(*n) == Some(t@),
{
    match n {
        YamlNode::Str(s) => Some(s.as_str()),
        _ => None,
    }
}

fn at_exec(path: &str, msg: &str) -> (r: String)
    ensures
        r@ == at(path@, msg@),
{
    if path.unicode_len() == 0 {
        owned(msg)
    } else {
        let mut r = join2(path, ": ");
        r.append(msg);
        r
    }
}

fn under_exec(path: &str, name: &str) -> (r: String)
    ensures
        r@ == under(path@, name@),
{
    let mut r = join2(path, ".");
    r.append(name);
    r
}

fn ticked_text(s: &str) -> (r: String)
    ensures
        r@ == ticked(s@),
{
    let mut r = join2("`", s);
    r.append("`");
    r
}

fn earlier_key_exec(es: &Vec<(YamlNode, YamlNode)>, i: usize, k: &str) -> (r: bool)
    requires
        i <= es.len(),
    ensures
        r == earlier_key(es@, i as int, k@),
{
    let mut j: usize = 0;
    while j < i
        invariant
            j <= i <= es.len(),
            forall|m: int| 0 <= m < j ==> node_text(#[trigger] es@[m].0) != Some(k@),
        decreases i - j,
    {
        match text_of(&es[j].0) {
            Some(t) => {
                if text_eq(t, k) {
                    return true;
                }
            },
            None => {},
        }
        j = j + 1;
    }
    false
}

fn key_issue_exec(l: Level, path: &str, es: &Vec<(YamlNode, YamlNode)>, i: usize) -> (r: Option<String>)
    requires
        i < es.len(),
    ensures
        match key_issue(l, path@, es@, i as int) {
            Some(m) => r matches Some(x) && x@ == m,
            None => r is None,
        },
{
    match text_of(&es[i].0) {
        None => Some(at_exec(path, "invalid type: a key that is not a string")),
        Some(k) => {
            if !level_has(l, k) {
                let mut m = owned("unknown field ");
                m.append(ticked_text(k).as_str());
                m.append(", expected ");
                m.append(level_expected_exec(l));
                return Some(at_exec(path, m.as_str()));
            }
            if earlier_key_exec(es, i, k) {
                let mut m = owned("duplicate field ");
                m.append(ticked_text(k).as_str());
                return Some(at_exec(path, m.as_str()));
            }
            None
        },
    }
}

fn field_exec<'a>(es: &'a Vec<(YamlNode, YamlNode)>, name: &str) -> (r: Option<&'a YamlNode>)
    ensures
        r is Some == field(es@, name@) is Some,
        r matches Some(n) ==> field(es@, name@) == Some(*n),
{
    let mut i: usize = 0;
    while i < es.len()
        invariant
            i <= es.len(),
            field(es@, name@) == field_from(es@, name@, i as int),
        decreases es.len() - i,
    {
        match text_of(&es[i].0) {
            Some(t) => {
                if text_eq(t, name) {
                    return Some(&es[i].1);
                }
            },
            None => {},
        }
        i = i + 1;
    }
    None
}

fn missing_exec(path: &str, name: &str) -> (r: String)
    ensures
        r@ == missing(path@, name@),
{
    let mut m = owned("missing field ");
    m.append(ticked_text(name).as_str());
    at_exec(path, m.as_str())
}

fn required_text_exec(path: &str, es: &Vec<(YamlNode, YamlNode)>, name: &str) -> (r: Result<String, String>)
    ensures
        match required_text(path@, es@, name@) {
            Ok(t) => r matches Ok(x) && x@ == t,
            Err(e) => r matches Err(x) && x@ == e,
        },
{
    match field_exec(es, name) {
        None => Err(missing_exec(path, name)),
        Some(YamlNode::Str(s)) => Ok(s.clone()),
        Some(_) => Err(at_exec(under_exec(path, name).as_str(), "invalid type: expected a string")),
    }
}

fn optional_text_exec(path: &str, es: &Vec<(YamlNode, YamlNode)>, name: &str) -> (r: Result<Option<String>, String>)
    ensures
        match optional_text(path@, es@, name@) {
            Ok(t) => r matches Ok(x) && opt_view(x) == t,
            Err(e) => r matches Err(x) && x@ == e,
        },
{
    match field_exec(es, name) {
        None => Ok(None),
        Some(YamlNode::Null) => Ok(None),
        Some(YamlNode::Str(s)) => Ok(Some(s.clone())),
        Some(_) => Err(at_exec(under_exec(path, name).as_str(), "invalid type: expected a string")),
    }
}

fn protocol_field_exec(path: &str, es: &Vec<(YamlNode, YamlNode)>) -> (r: Result<Protocol, String>)
    ensures
        match protocol_field(path@, es@) {
            Ok(p) => r matches Ok(x) && x == p,
            Err(e) => r matches Err(x) && x@ == e,
        },
{
    let t = required_text_exec(path, es, "protocol")?;
    match Protocol::from_name(t.as_str()) {
        Some(p) => Ok(p),
        None => {
            let mut m = owned("unknown variant ");
            m.append(ticked_text(t.as_str()).as_str());
            m.append(", expected `openai_compat`");
            Err(at_exec(under_exec(path, "protocol").as_str(), m.as_str()))
        },
    }
}

proof fn lemma_apis_err(path: Seq<char>, items: Seq<YamlNode>, n: nat, m: nat)
    requires
        n <= m,
        decode_apis(path, items, n) is Err,
    ensures
        decode_apis(path, items, m) == decode_apis(path, items, n),
    decreases m - n,
{
    if n < m {
        lemma_apis_err(path, items, n, (m - 1) as nat);
    }
}

fn decode_apis_exec(path: &str, items: &Vec<YamlNode>) -> (r: Result<Vec<Api>, String>)
    ensures
        match decode_apis(path@, items@, items@.len()) {
            Ok(a) => r matches Ok(x) && x@ == a,
            Err(e) => r matches Err(x) && x@ == e,
        },
{
    let mut acc: Vec<Api> = Vec::new();
    let mut i: usize = 0;
    while i < items.len()
        invariant
            i <= items.len(),
            decode_apis(path@, items@, i as nat) == Ok::<Seq<Api>, Seq<char>>(acc@),
        decreases items.len() - i,
    {
        match text_of(&items[i]) {
            None => {
                proof { lemma_apis_err(path@, items@, (i + 1) as nat, items@.len()); }
                return Err(at_exec(path, "invalid type: expected a string"));
            },
            Some(t) => match Api::from_name(t) {
                None => {
                    proof { lemma_apis_err(path@, items@, (i + 1) as nat, items@.len()); }
                    let mut m = owned("unknown variant ");
                    m.append(ticked_text(t).as_str());
                    m.append(", expected one of `chat_completions`, `chat_completions_stream`, `responses`");
                    return Err(at_exec(path, m.as_str()));
                },
                Some(a) => {
                    acc.push(a);
                },
            },
        }
        i = i + 1;
    }
    Ok(acc)
}

fn apis_field_exec(path: &str, es: &Vec<(YamlNode, YamlNode)>) -> (r: Result<Vec<Api>, String>)
    ensures
        match apis_field(path@, es@) {
            Ok(a) => r matches Ok(x) && x@ == a,
            Err(e) => r matches Err(x) && x@ == e,
        },
{
    match field_exec(es, "supported_apis") {
        None => Err(missing_exec(path, "supported_apis")),
        Some(YamlNode::Null) => {
            let v: Vec<Api> = Vec::new();
            assert(v@ =~= Seq::<Api>::empty());
            Ok(v)
        },
        Some(YamlNode::List(items)) => decode_apis_exec(under_exec(path, "supported_apis").as_str(), items),
        Some(_) => Err(at_exec(under_exec(path, "supported_apis").as_str(), "invalid type: expected a sequence")),
    }
}

fn limit_field_exec(path: &str, es: &Vec<(YamlNode, YamlNode)>, name: &str) -> (r: Result<Option<u32>, String>)
    ensures
        match limit_field(path@, es@, name@) {
            Ok(a) => r matches Ok(x) && x == a,
            Err(e) => r matches Err(x) && x@ == e,
        },
{
    match field_exec(es, name) {
        None => Ok(None),
        Some(YamlNode::Null) => Ok(None),
        Some(YamlNode::Number(Some(n), text)) => {
            if *n <= u32::MAX as u64 {
                Ok(Some(*n as u32))
            } else {
                let mut m = owned("invalid value: ");
                m.append(text.as_str());
                m.append(", expected a u32");
                Err(at_exec(under_exec(path, name).as_str(), m.as_str()))
            }
        },
        Some(YamlNode::Number(None, text)) => {
            let mut m = owned("invalid value: ");
            m.append(text.as_str());
            m.append(", expected a u32");
            Err(at_exec(under_exec(path, name).as_str(), m.as_str()))
        },
        Some(_) => Err(at_exec(under_exec(path, name).as_str(), "invalid type: expected a u32")),
    }
}

fn limits_problem_exec(path: &str, es: &Vec<(YamlNode, YamlNode)>) -> (r: Option<String>)
    ensures
        match limits_problem(path@, es@, 0) {
            Some(m) => r matches Some(x) && x@ == m,
            None => r is None,
        },
{
    let mut i: usize = 0;
    while i < es.len()
        invariant
            i <= es.len(),
            limits_problem(path@, es@, 0) == limits_problem(path@, es@, i as int),
        decreases es.len() - i,
    {
        match key_issue_exec(Level::Limits, path, es, i) {
            Some(e) => {
                return Some(e);
            },
            None => {},
        }
        let k = match text_of(&es[i].0) {
            Some(k) => k,
            None => {
                return None;
            },
        };
        match limit_field_exec(path, es, k) {
            Err(e) => {
                return Some(e);
            },
            Ok(_) => {},
        }
        i = i + 1;
    }
    None
}

fn decode_capabilities_exec(path: &str, node: Option<&YamlNode>) -> (r: Result<Capabilities, String>)
    ensures
        match decode_capabilities(path@, match node { Some(n) => Some(*n), None => None }) {
            Ok(c) => r matches Ok(x) && x@ == c,
            Err(e) => r matches Err(x) && x@ == e,
        },
{
    match node {
        None => Ok(Capabilities::blank()),
        Some(n) => {
            let empty: Vec<(YamlNode, YamlNode)> = Vec::new();
            let es: &Vec<(YamlNode, YamlNode)> = match n {
                YamlNode::Mapping(es) => es,
                YamlNode::Null => &empty,
                _ => {
                    return Err(at_exec(path, "invalid type: expected a mapping"));
                },
            };
            assert(entries_of(*n) == Some(es@));
            match limits_problem_exec(path, es) {
                Some(e) => {
                    return Err(e);
                },
                None => {},
            }
            let a = limit_field_exec(path, es, "max_input_tokens")?;
            let b = limit_field_exec(path, es, "max_output_tokens")?;
            let c = limit_field_exec(path, es, "max_concurrent_requests")?;
            Ok(Capabilities { max_input_tokens: a, max_output_tokens: b, max_concurrent_requests: c })
        },
    }
}

fn model_problem_exec(path: &str, es: &Vec<(YamlNode, YamlNode)>) -> (r: Option<String>)
    ensures
        match model_problem(path@, es@, 0) {
            Some(m) => r matches Some(x) && x@ == m,
            None => r is None,
        },
{
    let mut i: usize = 0;
    while i < es.len()
        invariant
            i <= es.len(),
            model_problem(path@, es@, 0) == model_problem(path@, es@, i as int),
        decreases es.len() - i,
    {
        match key_issue_exec(Level::Model, path, es, i) {
            Some(e) => {
                return Some(e);
            },
            None => {},
        }
        let k = match text_of(&es[i].0) {
            Some(k) => k,
            None => {
                return None;
            },
        };
        if text_eq(k, "model") {
            match optional_text_exec(path, es, "model") {
                Err(e) => {
                    return Some(e);
                },
                Ok(_) => {},
            }
        } else {
            match decode_capabilities_exec(under_exec(path, "capabilities").as_str(), field_exec(es, "capabilities")) {
                Err(e) => {
                    return Some(e);
                },
                Ok(_) => {},
            }
        }
        i = i + 1;
    }
    None
}

fn decode_model_exec(path: &str, node: &YamlNode) -> (r: Result<ModelEntry, String>)
    ensures
        match decode_model(path@, *node) {
            Ok(m) => r matches Ok(x) && x@ == m,
            Err(e) => r matches Err(x) && x@ == e,
        },
{
    let empty: Vec<(YamlNode, YamlNode)> = Vec::new();
    let es: &Vec<(YamlNode, YamlNode)> = match node {
        YamlNode::Mapping(es) => es,
        YamlNode::Null => &empty,
        _ => {
            return Err(at_exec(path, "invalid type: expected a mapping"));
        },
    };
    assert(entries_of(*node) == Some(es@));
    match model_problem_exec(path, es) {
        Some(e) => {
            return Err(e);
        },
        None => {},
    }
    let model = optional_text_exec(path, es, "model")?;
    let capabilities = decode_capabilities_exec(
        under_exec(path, "capabilities").as_str(),
        field_exec(es, "capabilities"),
    )?;
    Ok(ModelEntry { model, capabilities })
}

proof fn lemma_models_err(path: Seq<char>, es: Seq<(YamlNode, YamlNode)>, n: nat, m: nat)
    requires
        n <= m,
        decode_models_upto(path, es, n) is Err,
    ensures
        decode_models_upto(path, es, m) == decode_models_upto(path, es, n),
    decreases m - n,
{
    if n < m {
        lemma_models_err(path, es, n, (m - 1) as nat);
    }
}

fn decode_models_exec(path: &str, es: &Vec<(YamlNode, YamlNode)>) -> (r: Result<Vec<(String, ModelEntry)>, String>)
    ensures
        match decode_models_upto(path@, es@, es@.len()) {
            Ok(m) => r matches Ok(x) && x@.map_values(|e: (String, ModelEntry)| (e.0@, e.1@)) == m,
            Err(e) => r matches Err(x) && x@ == e,
        },
{
    let mut acc: Vec<(String, ModelEntry)> = Vec::new();
    let mut i: usize = 0;
    assert(acc@.map_values(|e: (String, ModelEntry)| (e.0@, e.1@)) =~= Seq::<(Seq<char>, ModelEntryView)>::empty());
    while i < es.len()
        invariant
            i <= es.len(),
            decode_models_upto(path@, es@, i as nat) == Ok::<Seq<(Seq<char>, ModelEntryView)>, Seq<char>>(
                acc@.map_values(|e: (String, ModelEntry)| (e.0@, e.1@)),
            ),
        decreases es.len() - i,
    {
        match text_of(&es[i].0) {
            None => {
                proof { lemma_models_err(path@, es@, (i + 1) as nat, es@.len()); }
                return Err(at_exec(path, "invalid type: a model key that is not a string"));
            },
            Some(k) => {
                match decode_model_exec(under_exec(path, k).as_str(), &es[i].1) {
                    Err(e) => {
                        proof { lemma_models_err(path@, es@, (i + 1) as nat, es@.len()); }
                        return Err(e);
                    },
                    Ok(m) => {
                        let ghost prev = acc@;
                        acc.push((owned(k), m));
                        assert(acc@.map_values(|e: (String, ModelEntry)| (e.0@, e.1@)) =~= prev.map_values(
                            |e: (String, ModelEntry)| (e.0@, e.1@),
                        ).push((k@, m@)));
                    },
                }
            },
        }
        i = i + 1;
    }
    Ok(acc)
}

fn models_field_exec(path: &str, es: &Vec<(YamlNode, YamlNode)>) -> (r: Result<Option<Vec<(String, ModelEntry)>>, String>)
    ensures
        match models_field(path@, es@) {
            Ok(m) => r matches Ok(x) && match x {
                Some(v) => v@.map_values(|e: (String, ModelEntry)| (e.0@, e.1@)) == m,
                None => m.len() == 0,
            },
            Err(e) => r matches Err(x) && x@ == e,
        },
{
    match field_exec(es, "models") {
        None => Ok(None),
        Some(YamlNode::Null) => Ok(None),
        Some(YamlNode::Mapping(ms)) => Ok(Some(decode_models_exec(under_exec(path, "models").as_str(), ms)?)),
        Some(_) => Err(at_exec(under_exec(path, "models").as_str(), "invalid type: expected a mapping")),
    }
}

fn provider_problem_exec(path: &str, es: &Vec<(YamlNode, YamlNode)>) -> (r: Option<String>)
    ensures
        match provider_problem(path@, es@, 0) {
            Some(m) => r matches Some(x) && x@ == m,
            None => r is None,
        },
{
    let mut i: usize = 0;
    while i < es.len()
        invariant
            i <= es.len(),
            provider_problem(path@, es@, 0) == provider_problem(path@, es@, i as int),
        decreases es.len() - i,
    {
        match key_issue_exec(Level::Provider, path, es, i) {
            Some(e) => {
                return Some(e);
            },
            None => {},
        }
        let k = match text_of(&es[i].0) {
            Some(k) => k,
            None => {
                return None;
            },
        };
        let problem: Option<String> = if text_eq(k, "base_url") {
            match required_text_exec(path, es, "base_url") {
                Err(e) => Some(e),
                Ok(_) => None,
            }
        } else if text_eq(k, "env_api_key") {
            match optional_text_exec(path, es, "env_api_key") {
                Err(e) => Some(e),
                Ok(_) => None,
            }
        } else if text_eq(k, "protocol") {
            match protocol_field_exec(path, es) {
                Err(e) => Some(e),
                Ok(_) => None,
            }
        } else if text_eq(k, "supported_apis") {
            match apis_field_exec(path, es) {
                Err(e) => Some(e),
                Ok(_) => None,
            }
        } else {
            match models_field_exec(path, es) {
                Err(e) => Some(e),
                Ok(_) => None,
            }
        };
        if problem.is_some() {
            return problem;
        }
        i = i + 1;
    }
    None
}

fn decode_provider_exec(path: &str, node: &YamlNode) -> (r: Result<ProviderEntry, String>)
    ensures
        match decode_provider(path@, *node) {
            Ok(p) => r matches Ok(x) && x@ == p,
            Err(e) => r matches Err(x) && x@ == e,
        },
{
    let empty: Vec<(YamlNode, YamlNode)> = Vec::new();
    let es: &Vec<(YamlNode, YamlNode)> = match node {
        YamlNode::Mapping(es) => es,
        YamlNode::Null => &empty,
        _ => {
            return Err(at_exec(path, "invalid type: expected a mapping"));
        },
    };
    assert(entries_of(*node) == Some(es@));
    match provider_problem_exec(path, es) {
        Some(e) => {
            return Err(e);
        },
        None => {},
    }
    let base_url = required_text_exec(path, es, "base_url")?;
    let env_api_key = optional_text_exec(path, es, "env_api_key")?;
    let protocol = protocol_field_exec(path, es)?;
    let supported_apis = apis_field_exec(path, es)?;
    let models = models_field_exec(path, es)?;
    Ok(ProviderEntry { base_url, env_api_key, protocol, supported_apis, models })
}

proof fn lemma_providers_err(es: Seq<(YamlNode, YamlNode)>, n: nat, m: nat)
    requires
        n <= m,
        decode_providers_upto(es, n) is Err,
    ensures
        decode_providers_upto(es, m) == decode_providers_upto(es, n),
    decreases m - n,
{
    if n < m {
        lemma_providers_err(es, n, (m - 1) as nat);
    }
}

fn providers_field_exec(es: &Vec<(YamlNode, YamlNode)>) -> (r: Result<Vec<(String, ProviderEntry)>, String>)
    ensures
        match providers_field(es@) {
            Ok(ps) => r matches Ok(x) && x@.map_values(|e: (String, ProviderEntry)| (e.0@, e.1@)) == ps,
            Err(e) => r matches Err(x) && x@ == e,
        },
{
    let p = match field_exec(es, "providers") {
        None => {
            return Err(owned("missing field `providers`"));
        },
        Some(p) => p,
    };
    let empty: Vec<(YamlNode, YamlNode)> = Vec::new();
    let pes: &Vec<(YamlNode, YamlNode)> = match p {
        YamlNode::Mapping(pes) => pes,
        YamlNode::Null => &empty,
        _ => {
            return Err(at_exec("providers", "invalid type: expected a mapping"));
        },
    };
    assert(entries_of(*p) == Some(pes@));
    let mut acc: Vec<(String, ProviderEntry)> = Vec::new();
    assert(acc@.map_values(|e: (String, ProviderEntry)| (e.0@, e.1@)) =~= Seq::<(Seq<char>, ProviderEntryView)>::empty());
    let mut i: usize = 0;
    while i < pes.len()
        invariant
            i <= pes.len(),
            providers_field(es@) == decode_providers_upto(pes@, pes@.len()),
            decode_providers_upto(pes@, i as nat) == Ok::<Seq<(Seq<char>, ProviderEntryView)>, Seq<char>>(
                acc@.map_values(|e: (String, ProviderEntry)| (e.0@, e.1@)),
            ),
        decreases pes.len() - i,
    {
        match text_of(&pes[i].0) {
            None => {
                proof { lemma_providers_err(pes@, (i + 1) as nat, pes@.len()); }
                return Err(at_exec("providers", "invalid type: a provider name that is not a string"));
            },
            Some(k) => {
                match decode_provider_exec(under_exec("providers", k).as_str(), &pes[i].1) {
                    Err(e) => {
                        proof { lemma_providers_err(pes@, (i + 1) as nat, pes@.len()); }
                        return Err(e);
                    },
                    Ok(pe) => {
                        let ghost prev = acc@;
                        acc.push((owned(k), pe));
                        assert(acc@.map_values(|e: (String, ProviderEntry)| (e.0@, e.1@)) =~= prev.map_values(
                            |e: (String, ProviderEntry)| (e.0@, e.1@),
                        ).push((k@, pe@)));
                    },
                }
            },
        }
        i = i + 1;
    }
    Ok(acc)
}

fn root_problem_exec(es: &Vec<(YamlNode, YamlNode)>) -> (r: Option<String>)
    ensures
        match root_problem(es@, 0) {
            Some(m) => r matches Some(x) && x@ == m,
            None => r is None,
        },
{
    let mut i: usize = 0;
    while i < es.len()
        invariant
            i <= es.len(),
            root_problem(es@, 0) == root_problem(es@, i as int),
        decreases es.len() - i,
    {
        proof {
            reveal_strlit("");
            assert(""@ =~= Seq::<char>::empty());
        }
        match key_issue_exec(Level::Root, "", es, i) {
            Some(e) => {
                return Some(e);
            },
            None => {},
        }
        match providers_field_exec(es) {
            Err(e) => {
                return Some(e);
            },
            Ok(_) => {},
        }
        i = i + 1;
    }
    None
}

/// Reads the roster's YAML tree into a [`RosterFile`], or names the first
/// thing wrong with it in document order.
pub fn decode(node: &YamlNode) -> (r: Result<RosterFile, String>)
    ensures
        match decode_roster(*node) {
            Ok(f) => r matches Ok(x) && x@ == f,
            Err(e) => r matches Err(x) && x@ == e,
        },
{
    let empty: Vec<(YamlNode, YamlNode)> = Vec::new();
    let es: &Vec<(YamlNode, YamlNode)> = match node {
        YamlNode::Mapping(es) => es,
        YamlNode::Null => &empty,
        _ => {
            return Err(owned("invalid type: expected a mapping"));
        },
    };
    assert(entries_of(*node) == Some(es@));
    match root_problem_exec(es) {
        Some(e) => {
            return Err(e);
        },
        None => {},
    }
    let providers = providers_field_exec(es)?;
    let r = RosterFile { providers };
    assert(r@.providers == providers@.map_values(|e: (String, ProviderEntry)| (e.0@, e.1@)));
    Ok(r)
}

/// The count a limit's value spells: a whole number, or nothing.
pub open spec fn count_at(o: Option<YamlNode>) -> Option<u32> {
    match o {
        Some(YamlNode::Number(Some(n), _)) => Some(n as u32),
        _ => None,
    }
}

/// Each capability limit is read from the roster key of its own name: a
/// decoded block's `max_input_tokens` is the count under `max_input_tokens`,
/// its `max_output_tokens` the count under `max_output_tokens`, and its
/// `max_concurrent_requests` the count under `max_concurrent_requests`; a
/// key left out, or null, leaves its limit unset, and a block left out
/// sets none.
pub proof fn law_each_limit_is_read_from_its_own_key(path: Seq<char>, n: Option<YamlNode>)
    ensures
        n is None ==> decode_capabilities(path, n) == Ok::<CapabilitiesView, Seq<char>>(
            CapabilitiesView { max_input_tokens: None, max_output_tokens: None, max_concurrent_requests: None },
        ),
        decode_capabilities(path, n) matches Ok(c) ==> n is Some ==> {
            let es = entries_of(n->Some_0)->Some_0;
            &&& c.max_input_tokens == count_at(field(es, "max_input_tokens"@))
            &&& c.max_output_tokens == count_at(field(es, "max_output_tokens"@))
            &&& c.max_concurrent_requests == count_at(field(es, "max_concurrent_requests"@))
            &&& (c.max_input_tokens matches Some(x) ==> field(es, "max_input_tokens"@) matches Some(
                YamlNode::Number(Some(v), _),
            ) && v == x)
            &&& (c.max_output_tokens matches Some(x) ==> field(es, "max_output_tokens"@) matches Some(
                YamlNode::Number(Some(v), _),
            ) && v == x)
        },
{
}

} // verus!
