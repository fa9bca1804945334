//! YAML as the library reads it: a plain tree of owned values, as `yaml_serde`
//! parses it. Mappings keep the order their keys appear in the
//! document, which is what the roster's ordering rule is checked against.

use vstd::prelude::*;
use yaml_serde::Value;

verus! {

#[verifier::external_type_specification]
#[verifier::external_body]
pub struct ExYamlValue(yaml_serde::Value);

/// One YAML value.
#[derive(Debug)]
pub enum YamlNode {
    Null,
    Bool(bool),
    /// A number: its value when it is an integer that fits a `u64`, and its
    /// text as `yaml_serde` prints it.
    Number(Option<u64>, String),
    Str(String),
    List(Vec<YamlNode>),
    /// Entries in document order; `yaml_serde` refuses a document that
    /// repeats a key.
    Mapping(Vec<(YamlNode, YamlNode)>),
    /// A `!tag` and the value it tags.
    Tagged(String, Box<YamlNode>),
}

/// What `yaml_serde` parses `text` into, or the message it refuses it with.
pub uninterp spec fn yaml_document(text: Seq<char>) -> Result<YamlNode, Seq<char>>;

/// `yaml_serde::from_str::<yaml_serde::Value>`, its result converted into a
/// [`YamlNode`] and its error into its message. Claims only that the result is
/// a function of the text.
#[verifier::external_body]
pub fn parse_yaml(text: &str) -> (r: Result<YamlNode, String>)
    ensures
        match r {
            Ok(node) => yaml_document(text@) == Ok::<YamlNode, Seq<char>>(node),
            Err(message) => yaml_document(text@) == Err::<YamlNode, Seq<char>>(message@),
        },
{
    match yaml_serde::from_str::<yaml_serde::Value>(text) {
        Ok(value) => Ok(node_of(value)),
        Err(error) => Err(error.to_string()),
    }
}

/// Converts `yaml_serde`'s value into a [`YamlNode`], one variant for one.
#[verifier::external_body]
fn node_of(value: yaml_serde::Value) -> YamlNode {
    match value {
        Value::Null => YamlNode::Null,
        Value::Bool(b) => YamlNode::Bool(b),
        Value::Number(n) => YamlNode::Number(n.as_u64(), n.to_string()),
        Value::String(s) => YamlNode::Str(s),
        Value::Sequence(items) => YamlNode::List(items.into_iter().map(node_of).collect()),
        Value::Mapping(map) => YamlNode::Mapping(
            map.into_iter().map(|(k, v)| (node_of(k), node_of(v))).collect(),
        ),
        Value::Tagged(t) => YamlNode::Tagged(t.tag.to_string(), Box::new(node_of(t.value))),
    }
}

} // verus!
