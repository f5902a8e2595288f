//! Documents in YAML.

use vstd::prelude::*;

use crate::config::node::{ConfigError, FaultView, Node, NodeView};

verus! {

/// `serde_yaml::Value`.
#[verifier::external_type_specification]
#[verifier::external_body]
pub struct ExYamlValue(serde_yaml::Value);

/// What `serde_yaml::from_slice` makes of bytes as a `serde_yaml::Value`, or the
/// text of its error.
pub uninterp spec fn yaml_document(bytes: Seq<u8>) -> Result<NodeView, Seq<char>>;

/// A `serde_yaml::Value` as a node, variant by variant. A number that is no
/// integer of 64 bits and a tagged value have no node of their own. Only
/// `parse_yaml` uses this; nothing is claimed of it here.
#[verifier::external_body]
fn node_of(value: serde_yaml::Value) -> (r: Node) {
    match value {
        serde_yaml::Value::Null => Node::Null,
        serde_yaml::Value::Bool(b) => Node::Bool(b),
        serde_yaml::Value::Number(n) => match (n.as_i64(), n.as_u64()) {
            (Some(n), _) => Node::Int(n as i128),
            (None, Some(n)) => Node::Int(n as i128),
            (None, None) => Node::Other,
        },
        serde_yaml::Value::String(s) => Node::Text(s),
        serde_yaml::Value::Sequence(v) => Node::List(v.into_iter().map(node_of).collect()),
        serde_yaml::Value::Mapping(m) => Node::Obj(m.into_iter().map(field_of).collect()),
        serde_yaml::Value::Tagged(_) => Node::Other,
    }
}

/// A pair of a `serde_yaml::Mapping` as a field: a text is the key itself,
/// another key is the YAML that `serde_yaml::to_string` writes for it. Only
/// `node_of` uses this; nothing is claimed of it here.
#[verifier::external_body]
fn field_of(pair: (serde_yaml::Value, serde_yaml::Value)) -> (r: (String, Node)) {
    let key = match pair.0 {
        serde_yaml::Value::String(s) => s,
        other => serde_yaml::to_string(&other).unwrap_or_default().trim_end().to_string(),
    };
    (key, node_of(pair.1))
}

/// `serde_yaml::from_slice`, into a `serde_yaml::Value`.
///
/// Trusted: the document, or the text of the error, depends on the bytes alone.
#[verifier::external_body]
fn parse_yaml(bytes: &[u8]) -> (r: Result<Node, String>)
    ensures
        match r {
            Ok(node) => yaml_document(bytes@) == Ok::<NodeView, Seq<char>>(node@),
            Err(message) => yaml_document(bytes@) == Err::<NodeView, Seq<char>>(message@),
        },
{
    match serde_yaml::from_slice::<serde_yaml::Value>(bytes) {
        Ok(value) => Ok(node_of(value)),
        Err(err) => Err(err.to_string()),
    }
}

/// The document that bytes hold.
pub fn read_document(bytes: &[u8]) -> (r: Result<Node, ConfigError>)
    ensures
        match r {
            Ok(node) => yaml_document(bytes@) == Ok::<NodeView, Seq<char>>(node@),
            Err(err) => yaml_document(bytes@) is Err && err@ == FaultView::Invalid(
                yaml_document(bytes@)->Err_0,
            ),
        },
{
    match parse_yaml(bytes) {
        Ok(node) => Ok(node),
        Err(message) => Err(ConfigError::Invalid(message)),
    }
}

} // verus!
