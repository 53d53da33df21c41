//! The document tree: what a YAML document holds once its text is read.

use vstd::prelude::*;

verus! {

/// A number as the document writes it.
///
/// Whole numbers are held exactly. A number with a fraction or an exponent,
/// an infinity or a not-a-number is held as its text, in the form in which
/// YAML writes it (`-3.0`, `1.5e-7`, `.inf`, `.nan`): this crate does no
/// floating-point arithmetic.
#[derive(Clone, Debug, PartialEq, Eq)]
pub enum Numeral {
    /// A whole number that is zero or more.
    Unsigned(u64),
    /// A whole number below zero.
    Negative(i64),
    /// Any other number, as text.
    Real(String),
}

/// The mathematical value of a [`Numeral`].
pub enum NumeralView {
    Unsigned(u64),
    Negative(i64),
    Real(Seq<char>),
}

impl View for Numeral {
    type V = NumeralView;

    open spec fn view(&self) -> NumeralView {
        match self {
            Numeral::Unsigned(u) => NumeralView::Unsigned(*u),
            Numeral::Negative(i) => NumeralView::Negative(*i),
            Numeral::Real(t) => NumeralView::Real(t@),
        }
    }
}

/// A node of a document tree.
#[derive(Debug, PartialEq, Eq)]
pub enum Node {
    Null,
    Bool(bool),
    Number(Numeral),
    String(String),
    Sequence(Vec<Node>),
    /// The entries of a mapping, in the order of the document.
    Mapping(Vec<(Node, Node)>),
}

/// The mathematical value of a [`Node`].
pub enum NodeView {
    Null,
    Bool(bool),
    Number(NumeralView),
    String(Seq<char>),
    Sequence(Seq<NodeView>),
    Mapping(Seq<(NodeView, NodeView)>),
}

/// The mathematical value of a node: the same tree, with each text and each
/// list of children as a sequence.
pub open spec fn node_view(n: Node) -> NodeView
    decreases n,
{
    match n {
        Node::Null => NodeView::Null,
        Node::Bool(b) => NodeView::Bool(b),
        Node::Number(x) => NodeView::Number(x@),
        Node::String(s) => NodeView::String(s@),
        Node::Sequence(items) => NodeView::Sequence(
            Seq::new(
                items@.len(),
                |i: int|
                    if 0 <= i < items@.len() {
                        node_view(items@[i])
                    } else {
                        NodeView::Null
                    },
            ),
        ),
        Node::Mapping(entries) => NodeView::Mapping(
            Seq::new(
                entries@.len(),
                |i: int|
                    if 0 <= i < entries@.len() {
                        (node_view(entries@[i].0), node_view(entries@[i].1))
                    } else {
                        (NodeView::Null, NodeView::Null)
                    },
            ),
        ),
    }
}

impl View for Node {
    type V = NodeView;

    open spec fn view(&self) -> NodeView {
        node_view(*self)
    }
}

impl Numeral {
    /// The same number.
    pub fn copy(&self) -> (r: Numeral)
        ensures
            r@ == self@,
    {
        match self {
            Numeral::Unsigned(u) => Numeral::Unsigned(*u),
            Numeral::Negative(i) => Numeral::Negative(*i),
            Numeral::Real(t) => Numeral::Real(t.clone()),
        }
    }
}

impl Node {
    /// The same tree.
    pub fn copy(&self) -> (r: Node)
        ensures
            r@ == self@,
        decreases self,
    {
        match self {
            Node::Null => Node::Null,
            Node::Bool(b) => Node::Bool(*b),
            Node::Number(x) => Node::Number(x.copy()),
            Node::String(s) => Node::String(s.clone()),
            Node::Sequence(items) => {
                let mut out: Vec<Node> = Vec::new();
                let mut i: usize = 0;
                while i < items.len()
                    invariant
                        i <= items@.len(),
                        out@.len() == i,
                        *self == Node::Sequence(*items),
                        forall|j: int| 0 <= j < i ==> (#[trigger] out@[j])@ == items@[j]@,
                    decreases items@.len() - i,
                {
                    proof {
                        assert(decreases_to!(*self => self->Sequence_0));
                        assert(decreases_to!(*items => items[i as int]));
                    }
                    out.push(items[i].copy());
                    i += 1;
                }
                proof {
                    assert(Node::Sequence(out)@->Sequence_0 =~= self@->Sequence_0);
                }
                Node::Sequence(out)
            },
            Node::Mapping(entries) => {
                let mut out: Vec<(Node, Node)> = Vec::new();
                let mut i: usize = 0;
                while i < entries.len()
                    invariant
                        i <= entries@.len(),
                        out@.len() == i,
                        *self == Node::Mapping(*entries),
                        forall|j: int|
                            0 <= j < i ==> (#[trigger] out@[j]).0@ == entries@[j].0@ && out@[j].1@
                                == entries@[j].1@,
                    decreases entries@.len() - i,
                {
                    proof {
                        assert(decreases_to!(*self => self->Mapping_0));
                        assert(decreases_to!(*entries => entries[i as int]));
                    }
                    let key = entries[i].0.copy();
                    let value = entries[i].1.copy();
                    out.push((key, value));
                    i += 1;
                }
                proof {
                    assert(Node::Mapping(out)@->Mapping_0 =~= self@->Mapping_0);
                }
                Node::Mapping(out)
            },
        }
    }
}

impl Clone for Node {
    fn clone(&self) -> (r: Node)
        ensures
            r@ == self@,
    {
        self.copy()
    }
}

} // verus!
