//! Closed sets of values that are written as a word.

use vstd::prelude::*;
use crate::error::{ErrorKind, Fault, SchemaError};
use crate::likeness::alike;
use crate::node::{Node, NodeView};

verus! {

/// A closed set of values, each written as one word and read from that word
/// or, for some, from another spelling of it.
pub trait Spelled: Sized + Copy {
    /// The spelling that is written for a value.
    spec fn name(self) -> Seq<char>;

    /// The value that a spelling selects, if it is one of those that are read.
    spec fn named(t: Seq<char>) -> Option<Self>;

    /// The spelling that is written for a value.
    fn as_str(&self) -> (r: &'static str)
        ensures
            r@ == self.name(),
    ;

    /// The value that a spelling selects, if it is one of those that are read.
    fn from_name(t: &str) -> (r: Option<Self>)
        ensures
            r == Self::named(t@),
    ;

    /// The spelling that is written for a value selects the value.
    proof fn lemma_named(self)
        ensures
            Self::named(self.name()) == Some(self),
    ;
}

/// The value that a node stands for: the node must be text, in a spelling
/// that selects a value.
pub open spec fn decode_spelled<E: Spelled>(n: NodeView) -> Result<E, Fault> {
    match n {
        NodeView::String(t) => match E::named(t) {
            Some(v) => Ok(v),
            None => Err(Fault::here(ErrorKind::UnrecognizedDiscriminant)),
        },
        _ => Err(Fault::here(ErrorKind::TypeMismatch)),
    }
}

/// The node written for a value: its spelling.
pub open spec fn encode_spelled<E: Spelled>(v: E) -> NodeView {
    NodeView::String(v.name())
}

/// Reads a value from its spelling.
pub fn read_spelled<E: Spelled>(n: &Node) -> (r: Result<E, SchemaError>)
    ensures
        r matches Ok(x) ==> decode_spelled::<E>(n@) == Ok::<E, Fault>(x),
        r matches Err(e) ==> decode_spelled::<E>(n@) == Err::<E, Fault>(e.deep_view()),
{
    match n {
        Node::String(t) => match E::from_name(t.as_str()) {
            Some(v) => Ok(v),
            None => Err(SchemaError::here(ErrorKind::UnrecognizedDiscriminant)),
        },
        _ => Err(SchemaError::here(ErrorKind::TypeMismatch)),
    }
}

/// Writes a value as its spelling.
pub fn write_spelled<E: Spelled>(v: &E) -> (n: Node)
    ensures
        n@ == encode_spelled::<E>(*v),
{
    Node::String(String::from_str(v.as_str()))
}

/// Reading the spelling that was written gives the value back.
pub proof fn lemma_spelled_round_trip<E: Spelled>(v: E)
    ensures
        decode_spelled::<E>(encode_spelled::<E>(v)) == Ok::<E, Fault>(v),
{
    v.lemma_named();
}

/// What is written for a value that was read is text, as what it was read
/// from.
pub proof fn lemma_spelled_faithful<E: Spelled>(n: NodeView)
    ensures
        decode_spelled::<E>(n) matches Ok(v) ==> alike(n, encode_spelled::<E>(v)),
{
    reveal_with_fuel(alike, 1);
}

} // verus!
