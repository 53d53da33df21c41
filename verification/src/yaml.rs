//! YAML text and document trees: what is read and written by `serde_yaml`.
//!
//! Nothing in this file is proved. Each function here calls `serde_yaml` or
//! moves values between its types and [`Node`]. The rest of the crate calls
//! three of them: [`read_document`] and [`write_document`], of which what is
//! stated is believed, and [`error_text`], of which nothing is stated. The
//! others move a tree from one form to the other; they call themselves for
//! the children of a node, and so stand apart from the two that use them.

use vstd::prelude::*;
use crate::node::{Node, NodeView, Numeral};

verus! {

/// `serde_yaml::Value`: carried through, with nothing known of what it
/// holds.
#[verifier::external_type_specification]
#[verifier::external_body]
pub struct ExYamlValue(serde_yaml::Value);

/// `serde_yaml::Number`: carried through, with nothing known of what it
/// holds.
#[verifier::external_type_specification]
#[verifier::external_body]
pub struct ExYamlNumber(serde_yaml::Number);

/// `serde_yaml::Error`: carried through, with nothing known of what it
/// holds.
#[verifier::external_type_specification]
#[verifier::external_body]
pub struct ExYamlError(serde_yaml::Error);

/// The tree that `serde_yaml::from_str` reads from a text as a
/// `serde_yaml::Value`, where it accepts the text and the value holds no
/// tagged value.
pub uninterp spec fn yaml_document(text: Seq<char>) -> Option<NodeView>;

/// The text that `serde_yaml::to_string` writes for the `serde_yaml::Value`
/// that is built from a tree, where the value can be built and written.
pub uninterp spec fn yaml_text(tree: NodeView) -> Option<Seq<char>>;

/// Calls `serde_yaml::Number::as_u64`, `as_i64` and, for a number that is
/// neither, its `Display`: a number is whole and held by value, or it is held
/// as the text that `serde_yaml` writes for it.
#[verifier::external_body]
fn numeral_of(n: &serde_yaml::Number) -> Numeral {
    match (n.as_u64(), n.as_i64()) {
        (Some(u), _) => Numeral::Unsigned(u),
        (None, Some(i)) => Numeral::Negative(i),
        (None, None) => Numeral::Real(n.to_string()),
    }
}

/// Calls the `From` impls of `serde_yaml::Number` for whole numbers and its
/// `FromStr` for the text of any other number, which fails where the text is
/// no number.
#[verifier::external_body]
fn number_of(n: &Numeral) -> Result<serde_yaml::Number, serde_yaml::Error> {
    match n {
        Numeral::Unsigned(u) => Ok(serde_yaml::Number::from(*u)),
        Numeral::Negative(i) => Ok(serde_yaml::Number::from(*i)),
        Numeral::Real(t) => t.parse::<serde_yaml::Number>(),
    }
}

/// Moves a `serde_yaml::Value` into a [`Node`], variant by variant; nothing
/// where a tagged value is met, for which a node has no place.
#[verifier::external_body]
fn node_of(v: &serde_yaml::Value) -> Option<Node> {
    Some(match v {
        serde_yaml::Value::Null => Node::Null,
        serde_yaml::Value::Bool(b) => Node::Bool(*b),
        serde_yaml::Value::Number(n) => Node::Number(numeral_of(n)),
        serde_yaml::Value::String(s) => Node::String(s.clone()),
        serde_yaml::Value::Sequence(s) => Node::Sequence(s.iter().map(node_of).collect::<Option<_>>()?),
        serde_yaml::Value::Mapping(m) => Node::Mapping(
            m.iter().map(|(k, v)| Some((node_of(k)?, node_of(v)?))).collect::<Option<_>>()?,
        ),
        serde_yaml::Value::Tagged(_) => return None,
    })
}

/// Moves a [`Node`] into a `serde_yaml::Value`, variant by variant. The
/// entries of a mapping are inserted in order, so that of two entries with
/// the same key the value of the second takes the place of the value of the
/// first.
#[verifier::external_body]
fn value_of(n: &Node) -> Result<serde_yaml::Value, serde_yaml::Error> {
    Ok(match n {
        Node::Null => serde_yaml::Value::Null,
        Node::Bool(b) => serde_yaml::Value::Bool(*b),
        Node::Number(x) => serde_yaml::Value::Number(number_of(x)?),
        Node::String(s) => serde_yaml::Value::String(s.clone()),
        Node::Sequence(s) => serde_yaml::Value::Sequence(s.iter().map(value_of).collect::<Result<_, _>>()?),
        Node::Mapping(m) => serde_yaml::Value::Mapping(
            m.iter().map(|(k, v)| Ok((value_of(k)?, value_of(v)?))).collect::<Result<_, serde_yaml::Error>>()?,
        ),
    })
}

/// Calls `serde_yaml::from_str` for a `serde_yaml::Value`.
///
/// Believed: the outcome depends on the text alone. It is the tree named
/// [`yaml_document`], or nothing where `serde_yaml` holds a tagged value, or
/// the error with which `serde_yaml` refuses the text.
#[verifier::external_body]
pub(crate) fn read_document(text: &str) -> (r: Result<Option<Node>, serde_yaml::Error>)
    ensures
        r matches Ok(Some(n)) ==> yaml_document(text@) == Some(n@),
        r matches Ok(None) ==> yaml_document(text@) is None,
        r is Err ==> yaml_document(text@) is None,
{
    serde_yaml::from_str::<serde_yaml::Value>(text).map(|v| node_of(&v))
}

/// Calls `serde_yaml::to_string` on the `serde_yaml::Value` built from a
/// tree.
///
/// Believed: the outcome depends on the tree alone. It is the text named
/// [`yaml_text`], or the error with which `serde_yaml` refuses a number or
/// fails to write.
#[verifier::external_body]
pub(crate) fn write_document(n: &Node) -> (r: Result<String, serde_yaml::Error>)
    ensures
        r matches Ok(s) ==> yaml_text(n@) == Some(s@),
        r is Err ==> yaml_text(n@) is None,
{
    serde_yaml::to_string(&value_of(n)?)
}

/// Calls the `Display` of a `serde_yaml::Error`: what it says, for a reader.
#[verifier::external_body]
pub(crate) fn error_text(e: &serde_yaml::Error) -> String {
    e.to_string()
}

} // verus!
