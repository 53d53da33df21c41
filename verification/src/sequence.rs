//! Sequences of values, and the optional text of a label.

use vstd::prelude::*;
use crate::error::{ErrorKind, Fault, SchemaError, Segment, SegmentView};
use crate::likeness::alike;
use crate::node::{Node, NodeView};
use crate::schema::Schema;

verus! {

/// Whether item `i` is the first of `items` that is no value of `T`.
pub open spec fn fails_first<T: Schema>(items: Seq<NodeView>, i: int) -> bool {
    &&& 0 <= i < items.len()
    &&& T::decode(items[i]) is Err
    &&& forall|j: int| 0 <= j < i ==> T::decode(#[trigger] items[j]) is Ok
}

/// The position of the first of `items` that is no value of `T`.
pub open spec fn first_failure<T: Schema>(items: Seq<NodeView>) -> Option<int> {
    if exists|i: int| fails_first::<T>(items, i) {
        Some(choose|i: int| fails_first::<T>(items, i))
    } else {
        None
    }
}

/// The views of the items of a sequence node.
pub open spec fn item_views(items: Seq<Node>) -> Seq<NodeView> {
    Seq::new(items.len(), |i: int| items[i]@)
}

/// A sequence node holds the views of its items.
pub proof fn lemma_sequence_view(items: Vec<Node>)
    ensures
        Node::Sequence(items)@ == NodeView::Sequence(item_views(items@)),
{
    assert(Node::Sequence(items)@->Sequence_0 =~= item_views(items@));
}

/// A sequence: every item is read as a `T`, and the first that fails is
/// reported under its position.
impl<T: Schema> Schema for Vec<T> {
    open spec fn decode(n: NodeView) -> Result<Seq<T::V>, Fault> {
        match n {
            NodeView::Sequence(items) => match first_failure::<T>(items) {
                Some(i) => Err(T::decode(items[i])->Err_0.under(SegmentView::Index(i as usize))),
                None => Ok(Seq::new(items.len(), |i: int| T::decode(items[i])->Ok_0)),
            },
            _ => Err(Fault::here(ErrorKind::TypeMismatch)),
        }
    }

    open spec fn encode(v: Seq<T::V>) -> NodeView {
        NodeView::Sequence(Seq::new(v.len(), |i: int| T::encode(v[i])))
    }

    fn from_node(n: &Node) -> (r: Result<Vec<T>, SchemaError>) {
        match n {
            Node::Sequence(items) => {
                proof {
                    lemma_sequence_view(*items);
                }
                let ghost views = item_views(items@);
                let mut out: Vec<T> = Vec::new();
                let mut i: usize = 0;
                while i < items.len()
                    invariant
                        i <= items@.len(),
                        views == item_views(items@),
                        n@ == NodeView::Sequence(views),
                        out@.len() == i,
                        forall|j: int| 0 <= j < i ==> T::decode(#[trigger] views[j]) == Ok::<T::V, Fault>(out@[j].deep_view()),
                    decreases items@.len() - i,
                {
                    match T::from_node(&items[i]) {
                        Ok(x) => {
                            out.push(x);
                        },
                        Err(e) => {
                            proof {
                                assert(views[i as int] == items@[i as int]@);
                                assert(T::decode(views[i as int]) == Err::<T::V, Fault>(e.deep_view()));
                                assert(fails_first::<T>(views, i as int));
                                let k = choose|k: int| fails_first::<T>(views, k);
                                assert(k == i) by {
                                    if k < i {
                                        assert(T::decode(views[k]) is Ok);
                                    } else if i < k {
                                        assert(T::decode(views[i as int]) is Ok);
                                    }
                                }
                            }
                            return Err(e.under(Segment::Index(i)));
                        },
                    }
                    i += 1;
                }
                proof {
                    assert forall|k: int| !fails_first::<T>(views, k) by {
                        if 0 <= k < views.len() {
                            assert(T::decode(views[k]) is Ok);
                        }
                    }
                    assert(out.deep_view() =~= Seq::new(views.len(), |i: int| T::decode(views[i])->Ok_0));
                }
                Ok(out)
            },
            _ => Err(SchemaError::here(ErrorKind::TypeMismatch)),
        }
    }

    fn to_node(&self) -> (n: Node) {
        let mut items: Vec<Node> = Vec::new();
        let mut i: usize = 0;
        while i < self.len()
            invariant
                i <= self@.len(),
                items@.len() == i,
                forall|j: int| 0 <= j < i ==> (#[trigger] items@[j])@ == T::encode(self@[j].deep_view()),
            decreases self@.len() - i,
        {
            items.push(self[i].to_node());
            i += 1;
        }
        proof {
            lemma_sequence_view(items);
            let v = self.deep_view();
            assert(item_views(items@) =~= Seq::new(v.len(), |i: int| T::encode(v[i])));
        }
        Node::Sequence(items)
    }

    proof fn lemma_round_trip(v: Seq<T::V>) {
        let items = Seq::new(v.len(), |i: int| T::encode(v[i]));
        assert forall|k: int| !fails_first::<T>(items, k) by {
            if 0 <= k < items.len() {
                T::lemma_round_trip(v[k]);
            }
        }
        assert forall|i: int| 0 <= i < v.len() implies T::decode(items[i])->Ok_0 == v[i] by {
            T::lemma_round_trip(v[i]);
        }
        assert(Seq::new(items.len(), |i: int| T::decode(items[i])->Ok_0) =~= v);
    }

    proof fn lemma_faithful(n: NodeView) {
        reveal_with_fuel(alike, 1);
        if let NodeView::Sequence(items) = n {
            if first_failure::<T>(items) is None {
                let v = Seq::new(items.len(), |i: int| T::decode(items[i])->Ok_0);
                let written = Self::encode(v)->Sequence_0;
                assert forall|i: int| 0 <= i < items.len() implies alike(#[trigger] items[i], written[i]) by {
                    lemma_all_decode::<T>(items, i);
                    T::lemma_faithful(items[i]);
                }
            }
        }
    }
}

/// Where no item fails first, every item is a value.
pub proof fn lemma_all_decode<T: Schema>(items: Seq<NodeView>, i: int)
    requires
        first_failure::<T>(items) is None,
        0 <= i < items.len(),
    ensures
        T::decode(items[i]) is Ok,
    decreases i,
{
    if T::decode(items[i]) is Err {
        if forall|j: int| 0 <= j < i ==> T::decode(#[trigger] items[j]) is Ok {
            assert(fails_first::<T>(items, i));
        } else {
            let j = choose|j: int| 0 <= j < i && !(T::decode(#[trigger] items[j]) is Ok);
            lemma_all_decode::<T>(items, j);
        }
    }
}

/// A label of a channel: text, or nothing where the channel has none. It is
/// the one place of the format where a null stands for a value.
impl Schema for Option<String> {
    open spec fn decode(n: NodeView) -> Result<Option<Seq<char>>, Fault> {
        match n {
            NodeView::Null => Ok(None),
            NodeView::String(s) => Ok(Some(s)),
            _ => Err(Fault::here(ErrorKind::TypeMismatch)),
        }
    }

    open spec fn encode(v: Option<Seq<char>>) -> NodeView {
        match v {
            None => NodeView::Null,
            Some(s) => NodeView::String(s),
        }
    }

    fn from_node(n: &Node) -> (r: Result<Option<String>, SchemaError>) {
        match n {
            Node::Null => Ok(None),
            Node::String(s) => Ok(Some(s.clone())),
            _ => Err(SchemaError::here(ErrorKind::TypeMismatch)),
        }
    }

    fn to_node(&self) -> (n: Node) {
        match self {
            None => Node::Null,
            Some(s) => Node::String(s.clone()),
        }
    }

    proof fn lemma_round_trip(v: Option<Seq<char>>) {
    }

    proof fn lemma_faithful(n: NodeView) {
        reveal_with_fuel(alike, 1);
    }
}

} // verus!
