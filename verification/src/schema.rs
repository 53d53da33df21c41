//! What it is for a type to have a place in the document format.

use vstd::prelude::*;
use crate::error::{ErrorKind, Fault, SchemaError};
use crate::likeness::alike;
use crate::node::{Node, NodeView, Numeral, NumeralView};

verus! {

/// A type whose values are written as a node of a document and read back
/// from one.
///
/// `decode` says which nodes are values of the type, and for every other node
/// which failure it is; `encode` gives the one node that the type writes for a
/// value. Reading is strict: nothing is coerced, and nothing that the type
/// does not declare is passed over.
pub trait Schema: Sized + DeepView {
    /// The value that a node stands for, or why it stands for none.
    spec fn decode(n: NodeView) -> Result<Self::V, Fault>;

    /// The node written for a value.
    spec fn encode(v: Self::V) -> NodeView;

    /// Reads a value from a node.
    fn from_node(n: &Node) -> (r: Result<Self, SchemaError>)
        ensures
            r matches Ok(x) ==> Self::decode(n@) == Ok::<Self::V, Fault>(x.deep_view()),
            r matches Err(e) ==> Self::decode(n@) == Err::<Self::V, Fault>(e.deep_view()),
    ;

    /// Writes a value as a node.
    fn to_node(&self) -> (n: Node)
        ensures
            n@ == Self::encode(self.deep_view()),
    ;

    /// Reading what was written gives the value back.
    proof fn lemma_round_trip(v: Self::V)
        ensures
            Self::decode(Self::encode(v)) == Ok::<Self::V, Fault>(v),
    ;

    /// What is written for a value has the shape of any node that the value
    /// was read from: the same keys at every depth.
    proof fn lemma_faithful(n: NodeView)
        ensures
            Self::decode(n) matches Ok(v) ==> alike(n, Self::encode(v)),
    ;
}

impl Schema for bool {
    open spec fn decode(n: NodeView) -> Result<bool, Fault> {
        match n {
            NodeView::Bool(b) => Ok(b),
            _ => Err(Fault::here(ErrorKind::TypeMismatch)),
        }
    }

    open spec fn encode(v: bool) -> NodeView {
        NodeView::Bool(v)
    }

    fn from_node(n: &Node) -> (r: Result<bool, SchemaError>) {
        match n {
            Node::Bool(b) => Ok(*b),
            _ => Err(SchemaError::here(ErrorKind::TypeMismatch)),
        }
    }

    fn to_node(&self) -> (n: Node) {
        Node::Bool(*self)
    }

    proof fn lemma_round_trip(v: bool) {
    }

    proof fn lemma_faithful(n: NodeView) {
        reveal_with_fuel(alike, 1);
    }
}

/// A whole number that is zero or more and fits the machine's word.
impl Schema for usize {
    open spec fn decode(n: NodeView) -> Result<usize, Fault> {
        match n {
            NodeView::Number(NumeralView::Unsigned(u)) if u <= usize::MAX => Ok(u as usize),
            _ => Err(Fault::here(ErrorKind::TypeMismatch)),
        }
    }

    open spec fn encode(v: usize) -> NodeView {
        NodeView::Number(NumeralView::Unsigned(v as u64))
    }

    fn from_node(n: &Node) -> (r: Result<usize, SchemaError>) {
        match n {
            Node::Number(Numeral::Unsigned(u)) => {
                if *u <= usize::MAX as u64 {
                    Ok(*u as usize)
                } else {
                    Err(SchemaError::here(ErrorKind::TypeMismatch))
                }
            },
            _ => Err(SchemaError::here(ErrorKind::TypeMismatch)),
        }
    }

    fn to_node(&self) -> (n: Node) {
        Node::Number(Numeral::Unsigned(*self as u64))
    }

    proof fn lemma_round_trip(v: usize) {
    }

    proof fn lemma_faithful(n: NodeView) {
        reveal_with_fuel(alike, 1);
    }
}

impl Schema for String {
    open spec fn decode(n: NodeView) -> Result<Seq<char>, Fault> {
        match n {
            NodeView::String(s) => Ok(s),
            _ => Err(Fault::here(ErrorKind::TypeMismatch)),
        }
    }

    open spec fn encode(v: Seq<char>) -> NodeView {
        NodeView::String(v)
    }

    fn from_node(n: &Node) -> (r: Result<String, SchemaError>) {
        match n {
            Node::String(s) => Ok(s.clone()),
            _ => Err(SchemaError::here(ErrorKind::TypeMismatch)),
        }
    }

    fn to_node(&self) -> (n: Node) {
        Node::String(self.clone())
    }

    proof fn lemma_round_trip(v: Seq<char>) {
    }

    proof fn lemma_faithful(n: NodeView) {
        reveal_with_fuel(alike, 1);
    }
}

impl DeepView for Numeral {
    type V = NumeralView;

    open spec fn deep_view(&self) -> NumeralView {
        self@
    }
}

/// Any number, whole or not, kept as the document writes it.
impl Schema for Numeral {
    open spec fn decode(n: NodeView) -> Result<NumeralView, Fault> {
        match n {
            NodeView::Number(x) => Ok(x),
            _ => Err(Fault::here(ErrorKind::TypeMismatch)),
        }
    }

    open spec fn encode(v: NumeralView) -> NodeView {
        NodeView::Number(v)
    }

    fn from_node(n: &Node) -> (r: Result<Numeral, SchemaError>) {
        match n {
            Node::Number(Numeral::Unsigned(u)) => Ok(Numeral::Unsigned(*u)),
            Node::Number(Numeral::Negative(i)) => Ok(Numeral::Negative(*i)),
            Node::Number(Numeral::Real(t)) => Ok(Numeral::Real(t.clone())),
            _ => Err(SchemaError::here(ErrorKind::TypeMismatch)),
        }
    }

    fn to_node(&self) -> (n: Node) {
        match self {
            Numeral::Unsigned(u) => Node::Number(Numeral::Unsigned(*u)),
            Numeral::Negative(i) => Node::Number(Numeral::Negative(*i)),
            Numeral::Real(t) => Node::Number(Numeral::Real(t.clone())),
        }
    }

    proof fn lemma_round_trip(v: NumeralView) {
    }

    proof fn lemma_faithful(n: NodeView) {
        reveal_with_fuel(alike, 1);
    }
}

} // verus!
